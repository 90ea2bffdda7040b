//! Syntactic validation of email addresses, used by sign-up and sign-in to
//! reject malformed input before any secret-dependent work happens.
use vstd::prelude::*;

verus! {

/// The kinds of email the platform sends, with what each carries. Delivery
/// itself happens at the transport edge.
pub enum EmailType {
    /// An address-verification mail: the one-time token and the account it
    /// verifies.
    EmailVerify([u8; 64], u128),
}

/// `i` is the position of the unique `'@'` of `s`, and the parts around it
/// are well formed: a non-empty local part, and a non-empty domain that
/// contains at least one dot and no empty dot-separated section (no leading,
/// trailing or doubled dot).
pub open spec fn is_email_split(s: Seq<char>, i: int) -> bool {
    &&& 0 < i < s.len() - 1
    &&& s[i] == '@'
    &&& forall|j: int| 0 <= j < s.len() && j != i ==> s[j] != '@'
    &&& s[i + 1] != '.'
    &&& s[s.len() - 1] != '.'
    &&& forall|j: int| i + 1 <= j < s.len() - 1 ==> !(#[trigger] s[j] == '.' && s[j + 1] == '.')
    &&& exists|j: int| i < j < s.len() && s[j] == '.'
}

/// The address has no spaces, exactly one `'@'`, a non-empty local part and a
/// dotted domain with no empty section.
pub open spec fn valid_email(s: Seq<char>) -> bool {
    &&& forall|j: int| 0 <= j < s.len() ==> s[j] != ' '
    &&& exists|i: int| is_email_split(s, i)
}

/// Decides `valid_email` for a candidate address.
pub fn check_email(email: &str) -> (r: bool)
    ensures
        r == valid_email(email@),
{
    let n = email.unicode_len();
    let mut at_idx: usize = 0;
    let mut at_count: usize = 0;
    let mut has_space = false;
    let mut i: usize = 0;
    while i < n
        invariant
            n == email@.len(),
            0 <= i <= n,
            at_count <= i,
            has_space == exists|j: int| 0 <= j < i && email@[j] == ' ',
            at_count == 0 <==> (forall|j: int| 0 <= j < i ==> email@[j] != '@'),
            at_count > 0 ==> (0 <= at_idx < i && email@[at_idx as int] == '@'
                && forall|j: int| 0 <= j < at_idx ==> email@[j] != '@'),
            at_count == 1 ==> (forall|j: int|
                0 <= j < i && j != at_idx ==> email@[j] != '@'),
            at_count >= 2 ==> (exists|j: int|
                at_idx < j < i && #[trigger] email@[j] == '@'),
        decreases n - i,
    {
        let c = email.get_char(i);
        if c == '@' {
            if at_count == 0 {
                at_idx = i;
            }
            at_count = at_count + 1;
        }
        if c == ' ' {
            has_space = true;
        }
        i = i + 1;
    }
    if has_space || at_count != 1 || at_idx == 0 || at_idx + 1 >= n {
        assert(!valid_email(email@)) by {
            if !has_space {
                assert forall|k: int| !is_email_split(email@, k) by {
                    if is_email_split(email@, k) {
                        assert(email@[k] == '@');
                        if at_count == 0 {
                            assert(false);
                        } else {
                            // the first '@' must be the unique one of the split
                            assert(k == at_idx);
                            if at_count >= 2 {
                                let j2 = choose|j: int|
                                    at_idx < j < n && #[trigger] email@[j] == '@';
                                assert(email@[j2] != '@');
                                assert(false);
                            }
                        }
                    }
                }
            }
        }
        return false;
    }
    // Exactly one '@', at position at_idx, with both sides non-empty.
    // Scan the domain for its dots.
    let mut dot_count: usize = 0;
    let mut bad_dot = false;
    let mut j: usize = at_idx + 1;
    while j < n
        invariant
            n == email@.len(),
            0 < at_idx + 1 <= j <= n,
            at_idx + 1 < n,
            dot_count <= j,
            email@[at_idx as int] == '@',
            dot_count == 0 <==> (forall|k: int| at_idx < k < j ==> email@[k] != '.'),
            bad_dot <==> (exists|k: int|
                at_idx + 1 <= k < j && #[trigger] email@[k] == '.' && (k == at_idx + 1 || k == n
                    - 1 || email@[k + 1] == '.')),
        decreases n - j,
    {
        let c = email.get_char(j);
        if c == '.' {
            dot_count = dot_count + 1;
            if j == at_idx + 1 {
                bad_dot = true;
            }
            if j + 1 < n {
                if email.get_char(j + 1) == '.' {
                    bad_dot = true;
                }
            } else {
                // trailing dot
                bad_dot = true;
            }
        }
        j = j + 1;
    }
    let ok = dot_count > 0 && !bad_dot;
    assert(ok == valid_email(email@)) by {
        if ok {
            assert(is_email_split(email@, at_idx as int)) by {
                assert forall|k: int|
                    at_idx + 1 <= k < email@.len() - 1 implies !(#[trigger] email@[k] == '.'
                    && email@[k + 1] == '.') by {
                    if email@[k] == '.' && email@[k + 1] == '.' {
                        assert(bad_dot);
                    }
                }
            }
        } else {
            assert forall|k: int| !is_email_split(email@, k) by {
                if is_email_split(email@, k) {
                    assert(email@[k] == '@');
                    assert(k == at_idx);
                    if dot_count == 0 {
                        let d = choose|m: int| k < m < n && email@[m] == '.';
                        assert(email@[d] != '.');
                        assert(false);
                    } else {
                        // bad_dot holds: its witness contradicts the split
                        let w = choose|m: int|
                            at_idx + 1 <= m < n && #[trigger] email@[m] == '.' && (m == at_idx + 1
                                || m == n - 1 || email@[m + 1] == '.');
                        if w == at_idx + 1 {
                            assert(false);
                        } else if w == n - 1 {
                            assert(false);
                        } else {
                            assert(!(email@[w] == '.' && email@[w + 1] == '.'));
                            assert(false);
                        }
                    }
                }
            }
        }
    }
    ok
}

} // verus!
