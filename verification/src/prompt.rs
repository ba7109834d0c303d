//! Pieces every AI feature shares: fitting source material into a prompt's
//! byte budget, the log line a call is recorded under, and unwrapping a
//! reply the model fenced as a Markdown code block.
use vstd::prelude::*;
use vstd::utf8::encode_utf8;
use crate::text::{
    lemma_utf8_len_is_encoding_len, utf8_len_upto, chars_of, ends_with, starts_with, string_from, trim, trimmed, vec_ends_with, vec_starts_with,
};

verus! {

// ---------------------------------------------------------------------------
// Byte budgets
// ---------------------------------------------------------------------------

/// Bytes in the UTF-8 encoding of `s` (what `str::len` counts).
pub open spec fn byte_len(s: Seq<char>) -> nat {
    encode_utf8(s).len()
}

pub proof fn lemma_encode_concat(a: Seq<char>, b: Seq<char>)
    ensures
        encode_utf8(a + b) == encode_utf8(a) + encode_utf8(b),
    decreases a.len(),
{
    if a.len() == 0 {
        assert(a + b =~= b);
        assert(encode_utf8(a) =~= Seq::<u8>::empty());
        assert(encode_utf8(a) + encode_utf8(b) =~= encode_utf8(b));
    } else {
        assert((a + b).drop_first() =~= a.drop_first() + b);
        assert((a + b)[0] == a[0]);
        lemma_encode_concat(a.drop_first(), b);
        assert(encode_utf8(a + b) =~= encode_utf8(a) + encode_utf8(b));
    }
}

pub proof fn lemma_byte_len_concat(a: Seq<char>, b: Seq<char>)
    ensures
        byte_len(a + b) == byte_len(a) + byte_len(b),
{
    lemma_encode_concat(a, b);
}

/// The views of a list of strings.
pub open spec fn views(v: Seq<String>) -> Seq<Seq<char>> {
    v.map_values(|s: String| s@)
}

/// Entries `i..` appended to `acc` for as long as the total stays within
/// `budget` bytes: the first entry that does not fit ends the run, so only
/// whole entries, in order, are kept. The count is where the run ended.
pub open spec fn fit_from(entries: Seq<Seq<char>>, budget: nat, i: nat, acc: Seq<char>) -> (
    nat,
    Seq<char>,
)
    decreases entries.len() - i,
{
    if i >= entries.len() {
        (i, acc)
    } else if byte_len(acc) + byte_len(entries[i as int]) > budget {
        (i, acc)
    } else {
        fit_from(entries, budget, i + 1, acc + entries[i as int])
    }
}

/// The entries that fit, and how many.
pub open spec fn fitted(entries: Seq<Seq<char>>, budget: nat) -> (nat, Seq<char>) {
    fit_from(entries, budget, 0, Seq::empty())
}

/// The concatenation of `entries[..k]`.
pub open spec fn concat_prefix(entries: Seq<Seq<char>>, k: nat) -> Seq<char>
    decreases k,
{
    if k == 0 || k > entries.len() {
        Seq::empty()
    } else {
        concat_prefix(entries, (k - 1) as nat) + entries[k - 1]
    }
}

/// Concatenate `entries` in order, stopping before the first one that would
/// take the total past `budget` bytes. Returns how many were kept and the
/// text.
pub fn fit_entries(entries: &Vec<String>, budget: usize) -> (r: (usize, String))
    requires
        budget < usize::MAX,
    ensures
        (r.0 as nat, r.1@) == fitted(views(entries@), budget as nat),
{
    let ghost es = views(entries@);
    let mut out = String::new();
    let mut used: usize = 0;
    let mut i: usize = 0;
    proof {
        lemma_utf8_len_is_encoding_len(out@);
    }
    while i < entries.len()
        invariant
            es == views(entries@),
            es.len() == entries@.len(),
            budget < usize::MAX,
            i <= entries@.len(),
            used == byte_len(out@),
            used <= budget,
            fit_from(es, budget as nat, i as nat, out@) == fitted(es, budget as nat),
        decreases entries@.len() - i,
    {
        let e = &entries[i];
        assert(es[i as int] == e@);
        let cs = chars_of(e.as_str());
        let w = utf8_len_upto(&cs, budget - used);
        proof {
            lemma_utf8_len_is_encoding_len(e@);
        }
        if w > budget - used {
            return (i, out);
        }
        proof {
            lemma_byte_len_concat(out@, e@);
        }
        out.push_str(e.as_str());
        used = used + w;
        i = i + 1;
    }
    (i, out)
}

/// A fitted run is the first `k` entries, whole, and stays within budget.
pub proof fn lemma_fit_from_shape(entries: Seq<Seq<char>>, budget: nat, i: nat, acc: Seq<char>)
    requires
        i <= entries.len(),
        acc == concat_prefix(entries, i),
        byte_len(acc) <= budget,
    ensures
        i <= fit_from(entries, budget, i, acc).0 <= entries.len(),
        fit_from(entries, budget, i, acc).1 == concat_prefix(
            entries,
            fit_from(entries, budget, i, acc).0,
        ),
        byte_len(fit_from(entries, budget, i, acc).1) <= budget,
    decreases entries.len() - i,
{
    if i < entries.len() && byte_len(acc) + byte_len(entries[i as int]) <= budget {
        lemma_byte_len_concat(acc, entries[i as int]);
        lemma_fit_from_shape(entries, budget, i + 1, acc + entries[i as int]);
    }
}

/// Whatever the budget, the text kept is exactly the first `k` entries,
/// whole and in order, and within the budget; an entry is left out only
/// when it, or one before it, would have overflowed.
pub proof fn law_fitting_keeps_whole_entries_within_budget(entries: Seq<Seq<char>>, budget: nat)
    ensures
        fitted(entries, budget).0 <= entries.len(),
        fitted(entries, budget).1 == concat_prefix(entries, fitted(entries, budget).0),
        byte_len(fitted(entries, budget).1) <= budget,
        fitted(entries, budget).0 < entries.len() ==> byte_len(fitted(entries, budget).1)
            + byte_len(entries[fitted(entries, budget).0 as int]) > budget,
{
    assert(encode_utf8(Seq::<char>::empty()) =~= Seq::<u8>::empty());
    lemma_fit_from_shape(entries, budget, 0, Seq::empty());
    lemma_fit_from_stops(entries, budget, 0, Seq::empty());
}

proof fn lemma_fit_from_stops(entries: Seq<Seq<char>>, budget: nat, i: nat, acc: Seq<char>)
    requires
        i <= entries.len(),
    ensures
        fit_from(entries, budget, i, acc).0 < entries.len() ==> byte_len(
            fit_from(entries, budget, i, acc).1,
        ) + byte_len(entries[fit_from(entries, budget, i, acc).0 as int]) > budget,
    decreases entries.len() - i,
{
    if i < entries.len() && byte_len(acc) + byte_len(entries[i as int]) <= budget {
        lemma_fit_from_stops(entries, budget, i + 1, acc + entries[i as int]);
    }
}

// ---------------------------------------------------------------------------
// Logging a call
// ---------------------------------------------------------------------------

/// What a call is recorded under: a tag, then the two prompts.
pub open spec fn prompt_log_text(tag: Seq<char>, system: Seq<char>, user: Seq<char>) -> Seq<char> {
    tag + "\n[system] "@ + system + "\n[user] "@ + user
}

pub fn prompt_log(tag: &str, system: &str, user: &str) -> (s: String)
    ensures
        s@ == prompt_log_text(tag@, system@, user@),
{
    let mut s = String::new();
    s.push_str(tag);
    s.push_str("\n[system] ");
    s.push_str(system);
    s.push_str("\n[user] ");
    s.push_str(user);
    proof {
        assert(s@ =~= prompt_log_text(tag@, system@, user@));
    }
    s
}

// ---------------------------------------------------------------------------
// Fenced replies
// ---------------------------------------------------------------------------

/// The text inside a Markdown code fence: for a reply that, trimmed, opens
/// with three backticks, the opening (with a `json` tag when there is one)
/// and a closing fence are removed and the rest trimmed; any other reply is
/// just trimmed.
pub open spec fn unfenced(raw: Seq<char>) -> Seq<char> {
    let t = trim(raw);
    if starts_with(t, "```"@) {
        let after = if starts_with(t, "```json"@) {
            t.skip(7)
        } else {
            t.skip(3)
        };
        let inner = if ends_with(after, "```"@) {
            after.take(after.len() - 3)
        } else {
            after
        };
        trim(inner)
    } else {
        t
    }
}

/// Unwrap a fenced reply; the model sometimes fences JSON despite being
/// told not to. The parse is tried on the raw reply first, and on this only
/// when that fails.
pub fn strip_code_fence(raw: &str) -> (s: String)
    ensures
        s@ == unfenced(raw@),
{
    let t = trimmed(raw);
    let v = chars_of(t.as_str());
    let n = v.len();
    proof {
        reveal_strlit("```");
        reveal_strlit("```json");
        assert(v@.subrange(0, n as int) =~= v@);
    }
    if !vec_starts_with(&v, 0, n, "```") {
        return t;
    }
    let start: usize = if vec_starts_with(&v, 0, n, "```json") {
        7
    } else {
        3
    };
    proof {
        assert(v@.subrange(start as int, n as int) =~= v@.skip(start as int));
    }
    let has_close = vec_ends_with(&v, start, n, "```");
    let end: usize = if has_close {
        n - 3
    } else {
        n
    };
    let inner = string_from(&v, start, end);
    proof {
        let after = v@.skip(start as int);
        if has_close {
            assert(inner@ =~= after.take(after.len() - 3));
        } else {
            assert(inner@ =~= after);
        }
    }
    trimmed(inner.as_str())
}

} // verus!
