//! Pool configuration: the two tuning knobs read from the environment at
//! setup — session acquisition timeout and maximum connection count — each
//! falling back to its default when the variable is absent or not a plain
//! decimal number that fits.

use vstd::prelude::*;

verus! {

/// Milliseconds a call may wait for a free pooled session.
pub const DEFAULT_ACQUIRE_TIMEOUT_MS: u64 = 5000;

/// Most physical connections the pool may hold at once.
pub const DEFAULT_MAX_CONNECTIONS: u32 = 8;

/// A decimal digit.
pub open spec fn is_digit(c: char) -> bool {
    48 <= c as u32 <= 57
}

/// Every character is a decimal digit.
pub open spec fn all_digits(s: Seq<char>) -> bool {
    forall|i: int| 0 <= i < s.len() ==> is_digit(#[trigger] s[i])
}

/// The numeric value of a digit character.
pub open spec fn digit_val(c: char) -> int {
    c as u32 - 48
}

/// The value of a digit string read as a decimal number.
pub open spec fn dec_val(s: Seq<char>) -> int
    decreases s.len(),
{
    if s.len() == 0 {
        0
    } else {
        dec_val(s.drop_last()) * 10 + digit_val(s.last())
    }
}

/// What a tuning knob resolves to: the string's decimal value when it is a
/// nonempty digit string whose value is at most `max`, the default otherwise.
pub open spec fn resolved(s: Seq<char>, max: int, default: int) -> int {
    if s.len() > 0 && all_digits(s) && dec_val(s) <= max {
        dec_val(s)
    } else {
        default
    }
}

proof fn lemma_dec_val_nonneg(s: Seq<char>)
    requires
        all_digits(s),
    ensures
        dec_val(s) >= 0,
    decreases s.len(),
{
    if s.len() > 0 {
        assert(all_digits(s.drop_last()));
        lemma_dec_val_nonneg(s.drop_last());
    }
}

proof fn lemma_dec_val_prefix(s: Seq<char>, n: int)
    requires
        all_digits(s),
        0 <= n <= s.len(),
    ensures
        dec_val(s.subrange(0, n)) <= dec_val(s),
    decreases s.len() - n,
{
    if n == s.len() {
        assert(s.subrange(0, n) =~= s);
    } else {
        let p = s.subrange(0, n);
        let q = s.subrange(0, n + 1);
        assert(q.drop_last() =~= p);
        assert(all_digits(p));
        lemma_dec_val_nonneg(p);
        assert(dec_val(q) == dec_val(p) * 10 + digit_val(q.last()));
        assert(is_digit(s[n]));
        assert(dec_val(p) * 10 >= dec_val(p));
        lemma_dec_val_prefix(s, n + 1);
    }
}

/// Read a nonempty decimal digit string as a `u64`. `None` exactly when the
/// string is empty, holds a non-digit, or its value does not fit.
pub fn parse_u64(s: &str) -> (r: Option<u64>)
    ensures
        r is Some <==> s@.len() > 0 && all_digits(s@) && dec_val(s@) <= u64::MAX as int,
        r matches Some(v) ==> v as int == dec_val(s@),
{
    let n = s.unicode_len();
    if n == 0 {
        return None;
    }
    let mut v: u64 = 0;
    let mut i: usize = 0;
    while i < n
        invariant
            n == s@.len(),
            i <= n,
            forall|k: int| 0 <= k < i ==> is_digit(#[trigger] s@[k]),
            v as int == dec_val(s@.subrange(0, i as int)),
        decreases n - i,
    {
        let c = s.get_char(i);
        let d: u32 = c as u32;
        if d < 48 || d > 57 {
            proof {
                assert(!is_digit(s@[i as int]));
            }
            return None;
        }
        let dd: u64 = (d - 48) as u64;
        proof {
            assert(s@.subrange(0, i + 1).drop_last() =~= s@.subrange(0, i as int));
            assert(s@.subrange(0, i + 1).last() == s@[i as int]);
        }
        if v > (u64::MAX - dd) / 10 {
            proof {
                assert(dec_val(s@.subrange(0, i + 1)) == v as int * 10 + dd as int);
                let q: int = u64::MAX as int - dd as int;
                assert(v as int >= q / 10 + 1);
                assert(10 * (q / 10) + q % 10 == q);
                assert(v as int * 10 + dd as int > u64::MAX as int);
                if all_digits(s@) {
                    lemma_dec_val_prefix(s@, i + 1);
                    assert(dec_val(s@) > u64::MAX as int);
                }
            }
            return None;
        }
        v = v * 10 + dd;
        i = i + 1;
    }
    proof {
        assert(s@.subrange(0, i as int) =~= s@);
    }
    Some(v)
}

/// The pool's two tunable policies, resolved from environment values.
#[derive(Clone, Copy, Debug, PartialEq, Eq, Structural)]
pub struct PoolConfig {
    pub acquire_timeout_ms: u64,
    pub max_connections: u32,
}

impl PoolConfig {
    /// What the two knobs resolve to for given raw environment values.
    pub open spec fn from_env_spec(
        timeout_var: Option<String>,
        max_connections_var: Option<String>,
    ) -> PoolConfig {
        PoolConfig {
            acquire_timeout_ms: (match timeout_var {
                Option::None => DEFAULT_ACQUIRE_TIMEOUT_MS as int,
                Option::Some(s) => resolved(s@, u64::MAX as int, DEFAULT_ACQUIRE_TIMEOUT_MS as int),
            }) as u64,
            max_connections: (match max_connections_var {
                Option::None => DEFAULT_MAX_CONNECTIONS as int,
                Option::Some(s) => resolved(s@, u32::MAX as int, DEFAULT_MAX_CONNECTIONS as int),
            }) as u32,
        }
    }

    /// Resolve both knobs from the raw environment strings, read once at
    /// setup: an absent, malformed or oversized value falls back to the
    /// default.
    pub fn from_env_values(timeout_var: Option<String>, max_connections_var: Option<String>) -> (c:
        PoolConfig)
        ensures
            c.acquire_timeout_ms as int == match timeout_var {
                Option::None => DEFAULT_ACQUIRE_TIMEOUT_MS as int,
                Option::Some(s) => resolved(s@, u64::MAX as int, DEFAULT_ACQUIRE_TIMEOUT_MS as int),
            },
            c.max_connections as int == match max_connections_var {
                Option::None => DEFAULT_MAX_CONNECTIONS as int,
                Option::Some(s) => resolved(s@, u32::MAX as int, DEFAULT_MAX_CONNECTIONS as int),
            },
            c == Self::from_env_spec(timeout_var, max_connections_var),
    {
        let acquire_timeout_ms: u64 = match &timeout_var {
            Option::None => DEFAULT_ACQUIRE_TIMEOUT_MS,
            Option::Some(s) => match parse_u64(s.as_str()) {
                Option::Some(v) => v,
                Option::None => DEFAULT_ACQUIRE_TIMEOUT_MS,
            },
        };
        let max_connections: u32 = match &max_connections_var {
            Option::None => DEFAULT_MAX_CONNECTIONS,
            Option::Some(s) => match parse_u64(s.as_str()) {
                Option::Some(v) => {
                    if v <= u32::MAX as u64 {
                        v as u32
                    } else {
                        DEFAULT_MAX_CONNECTIONS
                    }
                },
                Option::None => DEFAULT_MAX_CONNECTIONS,
            },
        };
        PoolConfig { acquire_timeout_ms, max_connections }
    }
}

} // verus!
