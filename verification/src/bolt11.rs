//! Lightning invoices, by their looks.

use vstd::prelude::*;
use vstd::utf8::encode_utf8;

use crate::text::{byte_len, has_prefix, lower, lowered, starts_with, trim, trimmed};

verus! {

/// A text starts with one of the prefixes of invoices.
pub open spec fn invoice_prefix(s: Seq<char>) -> bool {
    ||| has_prefix(s, "lnbc"@)
    ||| has_prefix(s, "lntb"@)
    ||| has_prefix(s, "lnbcrt"@)
    ||| has_prefix(s, "lntbs"@)
    ||| has_prefix(s, "lnsb"@)
    ||| has_prefix(s, "lnbs"@)
}

/// A text looks like an invoice, white space around it and letter case aside: it has the prefix of
/// one, is no LNURL and is not longer than any invoice.
pub open spec fn bolt11_looks(s: Seq<char>) -> bool {
    let b = lowered(trimmed(s));
    &&& b.len() > 0
    &&& encode_utf8(b).len() <= 4096
    &&& !has_prefix(b, "lnurl"@)
    &&& invoice_prefix(b)
}

/// A text of 4096 bytes at most that starts like an invoice of the main network or of a test network
/// looks like one, in any letter case; whatever looks like one starts with `lnb`, `lnt` or `lns`, and
/// an LNURL never does.
pub proof fn lemma_invoices(s: Seq<char>, rest: Seq<char>)
    ensures
        lowered(trimmed(s)) == "lnbc"@ + rest && encode_utf8("lnbc"@ + rest).len() <= 4096
            ==> bolt11_looks(s),
        lowered(trimmed(s)) == "lntb"@ + rest && encode_utf8("lntb"@ + rest).len() <= 4096
            ==> bolt11_looks(s),
        lowered(trimmed(s)) == "lnurl"@ + rest ==> !bolt11_looks(s),
        bolt11_looks(s) ==> {
            let low = lowered(trimmed(s));
            &&& low.len() >= 4
            &&& low[0] == 'l' && low[1] == 'n'
            &&& low[2] == 'b' || low[2] == 't' || low[2] == 's'
            &&& encode_utf8(low).len() <= 4096
        },
{
    reveal_strlit("lnbc");
    reveal_strlit("lntb");
    reveal_strlit("lnbcrt");
    reveal_strlit("lntbs");
    reveal_strlit("lnsb");
    reveal_strlit("lnbs");
    reveal_strlit("lnurl");
    let low = lowered(trimmed(s));
    assert(("lnbc"@ + rest).take(4) =~= "lnbc"@);
    assert(("lntb"@ + rest).take(4) =~= "lntb"@);
    assert(("lnurl"@ + rest).take(5) =~= "lnurl"@);
    if low.len() >= 5 {
        assert(low.take(5)[2] == low[2]);
        assert("lnurl"@[2] == 'u');
    }
    if invoice_prefix(low) {
        if has_prefix(low, "lnbc"@) || has_prefix(low, "lntb"@) || has_prefix(low, "lnsb"@)
            || has_prefix(low, "lnbs"@) {
            let start = low.take(4);
            assert(start[0] == low[0] && start[1] == low[1] && start[2] == low[2]);
        } else if has_prefix(low, "lnbcrt"@) {
            let start = low.take(6);
            assert(start[0] == low[0] && start[1] == low[1] && start[2] == low[2]);
        } else {
            let start = low.take(5);
            assert(start[0] == low[0] && start[1] == low[1] && start[2] == low[2]);
        }
    }
}

/// Whether a text starts with one of the prefixes of invoices.
pub fn has_invoice_prefix(s: &str) -> (r: bool)
    ensures
        r == invoice_prefix(s@),
{
    starts_with(s, "lnbc") || starts_with(s, "lntb") || starts_with(s, "lnbcrt") || starts_with(
        s,
        "lntbs",
    ) || starts_with(s, "lnsb") || starts_with(s, "lnbs")
}

/// Whether a text looks like an invoice.
pub fn looks_like_bolt11(s: &str) -> (r: bool)
    ensures
        r == bolt11_looks(s@),
{
    let b = lower(trim(s));
    let b = b.as_str();
    if b.is_empty() || byte_len(b) > 4096 {
        return false;
    }
    if starts_with(b, "lnurl") {
        return false;
    }
    has_invoice_prefix(b)
}

} // verus!
