//! The operator commands run instead of the server, and the choice of
//! model provider at start-up: what an invocation asks for, and what is
//! said back. The commands' database work is the server's.
use vstd::prelude::*;
use crate::ids::{hyphenated, parse_uuid, uuid_parse, uuid_string};
use crate::text::{char_count, own, str_eq};

verus! {

pub const USAGE: &'static str = "usage: backend [migrate | create-user <email> [style] | mint-token <email> [label] | list-tokens <email> | revoke-token <token-id>]";

/// An operator command. Tokens are identified by their UUID's value.
#[derive(Debug, PartialEq, Eq)]
pub enum Command {
    CreateUser { email: String, style: Option<String> },
    MintToken { email: String, label: Option<String> },
    ListTokens { email: String },
    RevokeToken { token_id: u128 },
    /// Bring the database schema up to date.
    Migrate,
}

pub open spec fn arg(args: Seq<String>, i: int) -> Option<Seq<char>> {
    if i < args.len() {
        Some(args[i]@)
    } else {
        None
    }
}

/// What an invocation asks for: the command named first, with its
/// arguments; a missing argument, a token id that is not a UUID, or an
/// unknown command is an error that says so.
pub open spec fn command_spec(args: Seq<String>) -> Result<
    (nat, Seq<char>, Option<Seq<char>>),
    Seq<char>,
> {
    let name = args[0]@;
    if name == "create-user"@ {
        match arg(args, 1) {
            Some(e) => Ok((0nat, e, arg(args, 2))),
            None => Err("create-user needs an email"@),
        }
    } else if name == "mint-token"@ {
        match arg(args, 1) {
            Some(e) => Ok((1nat, e, arg(args, 2))),
            None => Err("mint-token needs an email"@),
        }
    } else if name == "list-tokens"@ {
        match arg(args, 1) {
            Some(e) => Ok((2nat, e, None)),
            None => Err("list-tokens needs an email"@),
        }
    } else if name == "revoke-token"@ {
        match arg(args, 1) {
            Some(id) => if uuid_parse(id) is Some {
                Ok((3nat, id, None))
            } else {
                Err("'"@ + id + "' is not a token id"@)
            },
            None => Err("revoke-token needs a token id"@),
        }
    } else if name == "migrate"@ {
        Ok((4nat, Seq::empty(), None))
    } else {
        Err("unknown command '"@ + name + "'\n"@ + USAGE@)
    }
}

fn opt_arg(args: &Vec<String>, i: usize) -> (r: Option<String>)
    ensures
        match arg(args@, i as int) {
            Some(a) => r matches Some(s) && s@ == a,
            None => r is None,
        },
{
    if i < args.len() {
        Some(args[i].clone())
    } else {
        None
    }
}

pub fn parse_command(args: &Vec<String>) -> (r: Result<Command, String>)
    requires
        args@.len() > 0,
    ensures
        match command_spec(args@) {
            Ok((k, a, b)) => match r {
                Ok(Command::CreateUser { email, style }) => k == 0 && email@ == a && (match style {
                    Some(s) => b == Some(s@),
                    None => b is None,
                }),
                Ok(Command::MintToken { email, label }) => k == 1 && email@ == a && (match label {
                    Some(s) => b == Some(s@),
                    None => b is None,
                }),
                Ok(Command::ListTokens { email }) => k == 2 && email@ == a,
                Ok(Command::RevokeToken { token_id }) => k == 3 && uuid_parse(a) == Some(token_id),
                Ok(Command::Migrate) => k == 4,
                Err(_) => false,
            },
            Err(m) => r matches Err(e) && e@ == m,
        },
{
    proof {
        reveal_strlit("create-user");
        reveal_strlit("mint-token");
        reveal_strlit("list-tokens");
        reveal_strlit("revoke-token");
        reveal_strlit("migrate");
    }
    let name = args[0].as_str();
    if str_eq(name, "create-user") {
        match opt_arg(args, 1) {
            Some(email) => Ok(Command::CreateUser { email, style: opt_arg(args, 2) }),
            None => Err(own("create-user needs an email")),
        }
    } else if str_eq(name, "mint-token") {
        match opt_arg(args, 1) {
            Some(email) => Ok(Command::MintToken { email, label: opt_arg(args, 2) }),
            None => Err(own("mint-token needs an email")),
        }
    } else if str_eq(name, "list-tokens") {
        match opt_arg(args, 1) {
            Some(email) => Ok(Command::ListTokens { email }),
            None => Err(own("list-tokens needs an email")),
        }
    } else if str_eq(name, "revoke-token") {
        match opt_arg(args, 1) {
            Some(id) => match parse_uuid(id.as_str()) {
                Some(token_id) => Ok(Command::RevokeToken { token_id }),
                None => {
                    let mut m = String::new();
                    m.push_str("'");
                    m.push_str(id.as_str());
                    m.push_str("' is not a token id");
                    proof {
                        assert(m@ =~= "'"@ + id@ + "' is not a token id"@);
                    }
                    Err(m)
                },
            },
            None => Err(own("revoke-token needs a token id")),
        }
    } else if str_eq(name, "migrate") {
        Ok(Command::Migrate)
    } else {
        let mut m = String::new();
        m.push_str("unknown command '");
        m.push_str(name);
        m.push_str("'\n");
        m.push_str(USAGE);
        proof {
            assert(m@ =~= "unknown command '"@ + name@ + "'\n"@ + USAGE@);
        }
        Err(m)
    }
}

/// The model providers the server can start with.
#[derive(Debug, Clone, Copy, PartialEq, Eq, Structural)]
pub enum Provider {
    DeepSeek,
    OpenAiCompatible,
}

/// The provider `LLM_PROVIDER` names: `deepseek` (also when unset) or
/// `openai_compatible`; a name the server does not know stops start-up.
pub fn provider_choice(raw: Option<&str>) -> (r: Result<Provider, String>)
    ensures
        match raw {
            None => r == Ok::<Provider, String>(Provider::DeepSeek),
            Some(s) => if s@ == "deepseek"@ {
                r == Ok::<Provider, String>(Provider::DeepSeek)
            } else if s@ == "openai_compatible"@ {
                r == Ok::<Provider, String>(Provider::OpenAiCompatible)
            } else {
                r matches Err(m) && m@ == "Unknown LLM_PROVIDER: "@ + s@
            },
        },
{
    match raw {
        None => Ok(Provider::DeepSeek),
        Some(s) => if str_eq(s, "deepseek") {
            Ok(Provider::DeepSeek)
        } else if str_eq(s, "openai_compatible") {
            Ok(Provider::OpenAiCompatible)
        } else {
            let mut m = String::new();
            m.push_str("Unknown LLM_PROVIDER: ");
            m.push_str(s);
            proof {
                assert(m@ =~= "Unknown LLM_PROVIDER: "@ + s@);
            }
            Err(m)
        },
    }
}

/// What the commands say when their subject does not exist.
pub fn no_user_message(email: &str) -> (m: String)
    ensures
        m@ == "no user with email "@ + email@,
{
    let mut m = String::new();
    m.push_str("no user with email ");
    m.push_str(email);
    proof {
        assert(m@ =~= "no user with email "@ + email@);
    }
    m
}

pub fn revoke_outcome(removed: bool, token_id: u128) -> (r: Result<String, String>)
    ensures
        removed ==> (r matches Ok(m) && m@ == "revoked "@ + hyphenated(token_id)),
        !removed ==> (r matches Err(m) && m@ == "no token with id "@ + hyphenated(token_id)),
{
    let id = crate::ids::uuid_string(token_id);
    let mut m = String::new();
    if removed {
        m.push_str("revoked ");
        m.push_str(id.as_str());
        proof {
            assert(m@ =~= "revoked "@ + hyphenated(token_id));
        }
        Ok(m)
    } else {
        m.push_str("no token with id ");
        m.push_str(id.as_str());
        proof {
            assert(m@ =~= "no token with id "@ + hyphenated(token_id));
        }
        Err(m)
    }
}

/// The user an email names: a failed lookup says so, and so does an email
/// no user has.
pub fn user_for(email: &str, lookup: Result<Option<u128>, String>) -> (r: Result<u128, String>)
    ensures
        lookup matches Ok(Some(id)) ==> r == Ok::<u128, String>(id),
        lookup matches Ok(None) ==> (r matches Err(m) && m@ == "no user with email "@ + email@),
        lookup matches Err(e) ==> (r matches Err(m) && m@ == "database error: "@ + e@),
{
    match lookup {
        Ok(Some(id)) => Ok(id),
        Ok(None) => Err(no_user_message(email)),
        Err(e) => {
            let mut m = own("database error: ");
            m.push_str(e.as_str());
            proof {
                assert(m@ =~= "database error: "@ + e@);
            }
            Err(m)
        },
    }
}

/// `text` padded with spaces on the right to `width` characters; text
/// that is already as wide is kept whole.
pub open spec fn padded(text: Seq<char>, width: nat) -> Seq<char> {
    if text.len() >= width {
        text
    } else {
        text + Seq::new((width - text.len()) as nat, |i: int| ' ')
    }
}

/// One line of `list-tokens`: the id, the label padded to twenty
/// characters, when it was created and when it was last used.
pub fn token_line(id: u128, label: &str, created: &str, last_used: &str) -> (s: String)
    ensures
        s@ == hyphenated(id) + "  "@ + padded(label@, 20) + " created "@ + created@
            + "  last used "@ + last_used@,
{
    let mut s = uuid_string(id);
    s.push_str("  ");
    s.push_str(label);
    let ghost before = s@;
    let n = char_count(label);
    let mut k: usize = n;
    while k < 20
        invariant
            n == label@.len(),
            n <= k <= 20 || (n > 20 && k == n),
            s@ == before + Seq::new((k - n) as nat, |i: int| ' '),
        decreases 20 - k,
    {
        s.push(' ');
        proof {
            assert(s@ =~= before + Seq::new((k + 1 - n) as nat, |i: int| ' '));
        }
        k = k + 1;
    }
    proof {
        if n >= 20 {
            assert(s@ =~= before);
        }
        assert(before + Seq::new((k - n) as nat, |i: int| ' ') =~= hyphenated(id) + "  "@ + padded(label@, 20));
    }
    s.push_str(" created ");
    s.push_str(created);
    s.push_str("  last used ");
    s.push_str(last_used);
    proof {
        assert(s@ =~= hyphenated(id) + "  "@ + padded(label@, 20) + " created "@ + created@
            + "  last used "@ + last_used@);
    }
    s
}

} // verus!
