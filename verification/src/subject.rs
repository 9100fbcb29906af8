//! Transport subjects for live trade distribution.
//!
//! A publisher sends a trade under `trades.<exchange>.<symbol>`; a
//! subscriber listens for one symbol across every exchange with the
//! pattern `trades.*.<symbol>`, where the wildcard stands for exactly one
//! non-empty token without a dot. Symbols are lower-cased ASCII.

use crate::tick::Exchange;
use vstd::prelude::*;

verus! {

/// ASCII `.`, the token separator of subjects.
pub const DOT: u8 = 46;

/// ASCII `-`, which some venues put in their product names and which is
/// stripped before a symbol enters a subject.
pub const DASH: u8 = 45;

/// A byte lower-cased, ASCII-wise.
pub open spec fn lower_byte(b: u8) -> u8 {
    if 65 <= b <= 90 {
        (b + 32) as u8
    } else {
        b
    }
}

/// A byte string lower-cased, ASCII-wise.
pub open spec fn lower_bytes(s: Seq<u8>) -> Seq<u8> {
    s.map_values(|b: u8| lower_byte(b))
}

/// ASCII lower-casing of a byte string.
pub fn ascii_lowercase(s: &Vec<u8>) -> (out: Vec<u8>)
    ensures
        out@ == lower_bytes(s@),
{
    let mut out: Vec<u8> = Vec::new();
    let mut i: usize = 0;
    while i < s.len()
        invariant
            i <= s.len(),
            out@ == lower_bytes(s@).take(i as int),
        decreases s.len() - i,
    {
        let b = s[i];
        if 65 <= b && b <= 90 {
            out.push(b + 32);
        } else {
            out.push(b);
        }
        proof {
            assert(out@ =~= lower_bytes(s@).take(i + 1 as int));
        }
        i = i + 1;
    }
    proof {
        assert(out@ =~= lower_bytes(s@));
    }
    out
}

/// The byte string with every dash removed.
pub open spec fn strip_dashes(s: Seq<u8>) -> Seq<u8>
    decreases s.len(),
{
    if s.len() == 0 {
        Seq::empty()
    } else if s.last() == DASH {
        strip_dashes(s.drop_last())
    } else {
        strip_dashes(s.drop_last()).push(s.last())
    }
}

/// Removes every dash from a byte string, as a venue product name is
/// flattened into a symbol.
pub fn remove_dashes(s: &Vec<u8>) -> (out: Vec<u8>)
    ensures
        out@ == strip_dashes(s@),
{
    let mut out: Vec<u8> = Vec::new();
    let mut i: usize = 0;
    while i < s.len()
        invariant
            i <= s.len(),
            out@ == strip_dashes(s@.take(i as int)),
        decreases s.len() - i,
    {
        proof {
            assert(s@.take(i + 1 as int).drop_last() =~= s@.take(i as int));
        }
        if s[i] != DASH {
            out.push(s[i]);
        }
        i = i + 1;
    }
    proof {
        assert(s@.take(s@.len() as int) =~= s@);
    }
    out
}

/// The bytes of `"trades."`, the fixed first token of every subject.
pub open spec fn subject_prefix() -> Seq<u8> {
    seq![116u8, 114u8, 97u8, 100u8, 101u8, 115u8, DOT]
}

/// The subscription pattern for one symbol across all exchanges:
/// `trades.*.<symbol>`, lower-cased.
pub open spec fn subscribe_subject_spec(symbol: Seq<u8>) -> Seq<u8> {
    subject_prefix() + seq![42u8, DOT] + lower_bytes(symbol)
}

/// Builds the subscription pattern `trades.*.<symbol>`.
pub fn subscribe_subject(symbol: &Vec<u8>) -> (out: Vec<u8>)
    ensures
        out@ == subscribe_subject_spec(symbol@),
{
    let mut out: Vec<u8> = Vec::new();
    out.push(116);
    out.push(114);
    out.push(97);
    out.push(100);
    out.push(101);
    out.push(115);
    out.push(DOT);
    out.push(42);
    out.push(DOT);
    let mut low = ascii_lowercase(symbol);
    out.append(&mut low);
    proof {
        assert(out@ =~= subscribe_subject_spec(symbol@));
    }
    out
}

/// The publication subject of one venue and symbol:
/// `trades.<exchange>.<symbol>`, lower-cased and dash-free.
pub open spec fn publish_subject_spec(exchange: Exchange, symbol: Seq<u8>) -> Seq<u8> {
    subject_prefix() + exchange.name_bytes_spec() + seq![DOT] + strip_dashes(lower_bytes(symbol))
}

/// Builds the publication subject `trades.<exchange>.<symbol>`.
pub fn publish_subject(exchange: &Exchange, symbol: &Vec<u8>) -> (out: Vec<u8>)
    ensures
        out@ == publish_subject_spec(*exchange, symbol@),
{
    let mut out: Vec<u8> = Vec::new();
    out.push(116);
    out.push(114);
    out.push(97);
    out.push(100);
    out.push(101);
    out.push(115);
    out.push(DOT);
    let mut name = exchange.name_bytes();
    out.append(&mut name);
    out.push(DOT);
    let low = ascii_lowercase(symbol);
    let mut flat = remove_dashes(&low);
    out.append(&mut flat);
    proof {
        assert(out@ =~= publish_subject_spec(*exchange, symbol@));
    }
    out
}

/// Whether a concrete subject matches the pattern `trades.*.<symbol>`:
/// the fixed first token, exactly one non-empty dot-free token in the
/// middle, and the symbol as the final token.
pub open spec fn subject_matches_spec(subject: Seq<u8>, symbol: Seq<u8>) -> bool {
    let n = subject.len() as int;
    let m = symbol.len() as int;
    &&& n >= 9 + m
    &&& subject.take(7) == subject_prefix()
    &&& subject.skip(n - m) == symbol
    &&& subject[n - m - 1] == DOT
    &&& forall|i: int| 7 <= i < n - m - 1 ==> subject[i] != DOT
}

/// Decides whether a published subject belongs to a subscription's
/// symbol.
pub fn subject_matches(subject: &Vec<u8>, symbol: &Vec<u8>) -> (r: bool)
    ensures
        r == subject_matches_spec(subject@, symbol@),
{
    let n = subject.len();
    let m = symbol.len();
    if n < 9 || n - 9 < m {
        return false;
    }
    let prefix = [116u8, 114u8, 97u8, 100u8, 101u8, 115u8, DOT];
    let mut i: usize = 0;
    while i < 7
        invariant
            n >= 9 + m,
            n == subject.len(),
            m == symbol.len(),
            i <= 7,
            prefix@ =~= subject_prefix(),
            forall|x: int| 0 <= x < i ==> subject@[x] == subject_prefix()[x],
        decreases 7 - i,
    {
        if subject[i] != prefix[i] {
            proof {
                assert(subject@.take(7)[i as int] != subject_prefix()[i as int]);
            }
            return false;
        }
        i = i + 1;
    }
    proof {
        assert(subject@.take(7) =~= subject_prefix());
    }
    let mut k: usize = 0;
    while k < m
        invariant
            n >= 9 + m,
            n == subject.len(),
            m == symbol.len(),
            k <= m,
            forall|x: int| 0 <= x < k ==> subject@[n - m + x] == symbol@[x],
        decreases m - k,
    {
        if subject[n - m + k] != symbol[k] {
            proof {
                assert(subject@.skip(n - m) =~= subject@.subrange(n - m, n as int));
                assert(subject@.skip(n - m)[k as int] != symbol@[k as int]);
            }
            return false;
        }
        k = k + 1;
    }
    proof {
        assert(subject@.skip(n - m) =~= symbol@);
    }
    if subject[n - m - 1] != DOT {
        return false;
    }
    let mut p: usize = 7;
    while p < n - m - 1
        invariant
            n >= 9 + m,
            n == subject.len(),
            m == symbol.len(),
            7 <= p <= n - m - 1,
            forall|x: int| 7 <= x < p ==> subject@[x] != DOT,
        decreases n - m - 1 - p,
    {
        if subject[p] == DOT {
            return false;
        }
        p = p + 1;
    }
    true
}

/// Whether a symbol is well formed: non-empty ASCII letters, digits or
/// dashes. Such a symbol never carries a subject separator.
pub open spec fn valid_symbol(symbol: Seq<u8>) -> bool {
    &&& symbol.len() >= 1
    &&& forall|i: int|
        0 <= i < symbol.len() ==> {
            let b = #[trigger] symbol[i];
            (48 <= b <= 57) || (65 <= b <= 90) || (97 <= b <= 122) || b == DASH
        }
}

/// Decides whether a requested symbol is well formed.
pub fn is_valid_symbol(symbol: &Vec<u8>) -> (r: bool)
    ensures
        r == valid_symbol(symbol@),
{
    if symbol.len() == 0 {
        return false;
    }
    let mut i: usize = 0;
    while i < symbol.len()
        invariant
            i <= symbol.len(),
            forall|x: int|
                0 <= x < i ==> {
                    let b = #[trigger] symbol@[x];
                    (48 <= b <= 57) || (65 <= b <= 90) || (97 <= b <= 122) || b == DASH
                },
        decreases symbol.len() - i,
    {
        let b = symbol[i];
        let ok = (48 <= b && b <= 57) || (65 <= b && b <= 90) || (97 <= b && b <= 122) || b
            == DASH;
        if !ok {
            return false;
        }
        i = i + 1;
    }
    true
}

} // verus!
