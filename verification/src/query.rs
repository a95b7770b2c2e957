//! The query-string contract: one integer parameter, permissive by design.
//!
//! The routes that fetch several records accept a `count` (also spelled `q`)
//! parameter. An absent or unparseable value silently falls back to 1; a
//! parseable value is clamped into `1 ..= 500`, the range the database
//! collaborator accepts.

use vstd::prelude::*;
use vstd::string::StrSliceExecFns;

use crate::text::str_eq;

verus! {

/// A decimal digit.
pub open spec fn is_digit(c: char) -> bool {
    48 <= c as u32 <= 57
}

/// The numeric value of a decimal digit.
pub open spec fn digit_val(c: char) -> nat {
    (c as u32 - 48) as nat
}

/// A non-empty, all-digit character sequence.
pub open spec fn all_digits(s: Seq<char>) -> bool {
    s.len() > 0 && forall|i: int| 0 <= i < s.len() ==> is_digit(s[i])
}

/// The number a digit sequence denotes, most significant digit first.
pub open spec fn parse_digits(s: Seq<char>) -> nat
    decreases s.len(),
{
    if s.len() == 0 {
        0
    } else {
        parse_digits(s.drop_last()) * 10 + digit_val(s.last())
    }
}

/// The index of the first occurrence of the character, or the length if the
/// character does not occur.
pub open spec fn find_idx(s: Seq<char>, c: char) -> nat
    decreases s.len(),
{
    if s.len() == 0 {
        0
    } else if s[0] == c {
        0
    } else {
        1 + find_idx(s.drop_first(), c)
    }
}

/// A scan that stopped at the first occurrence computed `find_idx`.
pub proof fn lemma_find_idx_at(s: Seq<char>, c: char, k: int)
    requires
        0 <= k <= s.len(),
        forall|i: int| 0 <= i < k ==> s[i] != c,
        k < s.len() ==> s[k] == c,
    ensures
        find_idx(s, c) == k,
    decreases s.len(),
{
    if s.len() == 0 {
    } else if s[0] == c {
        assert(k == 0);
    } else {
        assert(k >= 1);
        assert forall|i: int| 0 <= i < k - 1 implies s.drop_first()[i] != c by {
            assert(s.drop_first()[i] == s[i + 1]);
        }
        assert(k - 1 < s.drop_first().len() ==> s.drop_first()[k - 1] == c);
        lemma_find_idx_at(s.drop_first(), c, k - 1);
    }
}

/// The key of one `key=value` pair; a pair without `=` is all key.
pub open spec fn pair_key(p: Seq<char>) -> Seq<char> {
    let i = find_idx(p, '=');
    if i >= p.len() {
        p
    } else {
        p.subrange(0, i as int)
    }
}

/// The value of one `key=value` pair, if an `=` is present.
pub open spec fn pair_value(p: Seq<char>) -> Option<Seq<char>> {
    let i = find_idx(p, '=');
    if i >= p.len() {
        None
    } else {
        Some(p.subrange(i as int + 1, p.len() as int))
    }
}

/// A key that names the record count.
pub open spec fn is_count_key(k: Seq<char>) -> bool {
    k == "count"@ || k == "q"@
}

/// The `&`-separated pairs of a query string.
pub open spec fn split_pairs(s: Seq<char>) -> Seq<Seq<char>>
    decreases s.len(),
{
    let i = find_idx(s, '&');
    if i >= s.len() {
        seq![s]
    } else {
        seq![s.subrange(0, i as int)] + split_pairs(s.subrange(i as int + 1, s.len() as int))
    }
}

/// The count the pair list denotes, before clamping: the first pair whose key
/// names the count decides; a missing or unparseable value denotes 1.
pub open spec fn pairs_count(ps: Seq<Seq<char>>) -> nat
    decreases ps.len(),
{
    if ps.len() == 0 {
        1
    } else if is_count_key(pair_key(ps[0])) {
        match pair_value(ps[0]) {
            Some(v) => if all_digits(v) {
                parse_digits(v)
            } else {
                1
            },
            None => 1,
        }
    } else {
        pairs_count(ps.drop_first())
    }
}

/// Clamp a requested count into the collaborator's accepted range.
pub open spec fn clamp_count(n: nat) -> u16 {
    if n < 1 {
        1
    } else if n > 500 {
        500
    } else {
        n as u16
    }
}

/// The count a raw query string denotes.
pub open spec fn query_count(q: Option<Seq<char>>) -> u16 {
    match q {
        None => 1,
        Some(s) => clamp_count(pairs_count(split_pairs(s))),
    }
}

/// Parse the count parameter out of a raw query string.
pub fn parse_count(query: Option<&str>) -> (c: u16)
    ensures
        c == query_count(
            match query {
                Some(q) => Some(q@),
                None => None,
            },
        ),
        1 <= c <= 500,
{
    let s = match query {
        None => {
            return 1;
        },
        Some(s) => s,
    };
    let n: usize = s.unicode_len();
    let ghost whole = s@;
    let mut pos: usize = 0;
    proof {
        assert(whole.subrange(0, n as int) =~= whole);
    }
    loop
        invariant
            pos <= n,
            n == whole.len(),
            s@ == whole,
            query == Some(s),
            pairs_count(split_pairs(whole)) == pairs_count(
                split_pairs(whole.subrange(pos as int, n as int)),
            ),
        decreases n - pos,
    {
        let ghost tail = whole.subrange(pos as int, n as int);
        // scan for the separator that ends this pair
        let mut amp: usize = pos;
        let mut found = false;
        while amp < n && !found
            invariant
                pos <= amp <= n,
                n == whole.len(),
                s@ == whole,
                forall|j: int| pos <= j < amp ==> whole[j] != '&',
                found ==> amp < n && whole[amp as int] == '&',
            decreases n - amp + (if found { 0int } else { 1int }),
        {
            if s.get_char(amp) == '&' {
                found = true;
            } else {
                amp += 1;
            }
        }
        proof {
            assert forall|j: int| 0 <= j < amp - pos implies tail[j] != '&' by {
                assert(tail[j] == whole[pos + j]);
            }
            if found {
                assert(tail[amp - pos] == whole[amp as int]);
            }
            lemma_find_idx_at(tail, '&', amp - pos);
        }
        let pair = s.substring_char(pos, amp);
        let ghost p = tail.subrange(0, amp - pos);
        proof {
            assert(pair@ =~= p);
            if found {
                let rest = whole.subrange(amp + 1 as int, n as int);
                assert(tail.subrange(amp - pos + 1, tail.len() as int) =~= rest);
                assert(split_pairs(tail) == seq![p] + split_pairs(rest));
                assert((seq![p] + split_pairs(rest))[0] == p);
                assert((seq![p] + split_pairs(rest)).drop_first() =~= split_pairs(rest));
            } else {
                assert(split_pairs(tail) == seq![tail]);
                assert(p =~= tail);
                assert(seq![tail][0] == tail);
                assert(seq![tail].drop_first() =~= Seq::<Seq<char>>::empty());
            }
        }
        if let Some(v) = pair_count_value(pair) {
            proof {
                assert(pairs_count(split_pairs(tail)) == match pair_value(p) {
                    Some(val) => if all_digits(val) {
                        parse_digits(val)
                    } else {
                        1
                    },
                    None => 1,
                });
            }
            return v;
        }
        if !found {
            proof {
                assert(pairs_count(Seq::<Seq<char>>::empty()) == 1);
                assert(pairs_count(seq![tail]) == pairs_count(seq![tail].drop_first()));
                assert(pairs_count(split_pairs(tail)) == 1);
            }
            return 1;
        }
        pos = amp + 1;
    }
}

/// Examine one `key=value` pair; the clamped count if the key names it.
fn pair_count_value(pair: &str) -> (r: Option<u16>)
    ensures
        is_count_key(pair_key(pair@)) <==> r is Some,
        r matches Some(v) ==> v == clamp_count(
            match pair_value(pair@) {
                Some(val) => if all_digits(val) {
                    parse_digits(val)
                } else {
                    1
                },
                None => 1,
            },
        ),
{
    let n: usize = pair.unicode_len();
    // scan for the key/value separator
    let mut eq: usize = 0;
    let mut found = false;
    while eq < n && !found
        invariant
            eq <= n,
            n == pair@.len(),
            forall|j: int| 0 <= j < eq ==> pair@[j] != '=',
            found ==> eq < n && pair@[eq as int] == '=',
        decreases n - eq + (if found { 0int } else { 1int }),
    {
        if pair.get_char(eq) == '=' {
            found = true;
        } else {
            eq += 1;
        }
    }
    proof {
        if found {
            lemma_find_idx_at(pair@, '=', eq as int);
        } else {
            lemma_find_idx_at(pair@, '=', n as int);
        }
    }
    let key = pair.substring_char(0, eq);
    proof {
        if !found {
            assert(pair@.subrange(0, n as int) =~= pair@);
        }
    }
    let named = if str_eq(key, "count") {
        true
    } else {
        str_eq(key, "q")
    };
    if !named {
        return None;
    }
    if !found {
        // a bare key with no value: permissive default
        return Some(1);
    }
    let ghost val = pair@.subrange(eq + 1, n as int);
    if eq + 1 >= n {
        // an empty value is unparseable: permissive default
        proof {
            assert(val.len() == 0);
            assert(!all_digits(val));
        }
        return Some(1);
    }
    // parse the digits, saturating just above the clamp bound
    let mut acc: u32 = 0;
    let mut i: usize = eq + 1;
    while i < n
        invariant
            eq + 1 <= i <= n,
            n == pair@.len(),
            val == pair@.subrange(eq + 1, n as int),
            is_count_key(pair_key(pair@)),
            pair_value(pair@) == Some(val),
            forall|j: int| 0 <= j < i - eq - 1 ==> is_digit(val[j]),
            acc == if parse_digits(val.subrange(0, i - eq - 1)) > 500 {
                501int
            } else {
                parse_digits(val.subrange(0, i - eq - 1)) as int
            },
        decreases n - i,
    {
        let c = pair.get_char(i);
        let cu: u32 = c as u32;
        if cu < 48 || cu > 57 {
            proof {
                assert(val[i - eq - 1] == pair@[i as int]);
                assert(!all_digits(val));
            }
            return Some(1);
        }
        let d: u32 = cu - 48;
        let t: u32 = acc * 10 + d;
        proof {
            let prefix = val.subrange(0, i - eq - 1);
            let longer = val.subrange(0, i - eq);
            assert(longer.drop_last() =~= prefix);
            assert(longer.last() == val[i - eq - 1]);
            assert(val[i - eq - 1] == pair@[i as int]);
            assert(parse_digits(longer) == parse_digits(prefix) * 10 + digit_val(pair@[i as int]));
        }
        acc = if t > 500 {
            501
        } else {
            t
        };
        i += 1;
    }
    proof {
        assert(val.subrange(0, n - eq - 1) =~= val);
        assert(all_digits(val));
    }
    if acc < 1 {
        Some(1)
    } else if acc > 500 {
        Some(500)
    } else {
        Some(acc as u16)
    }
}

} // verus!
