//! The freshness cache: one stamp per key, which holds the second at which
//! the key was last marked. A key is fresh while its stamp is no older than a
//! time to live. The cache is advice: whatever cannot be read counts as stale.

use crate::text::{
    char_is_digit, from_chars, is_digit, join2, join4, lower_seq, lowered, same, to_chars, trim,
    trim_end, trim_start, trimmed,
};
use std::collections::hash_map::DefaultHasher;
use std::hash::Hasher;
use vstd::prelude::*;
use vstd::std_specs::hash::DefaultHasherAdditionalSpecFns;
use vstd::utf8::encode_utf8;

verus! {

/// The time to live of a synchronisation where none is set, in seconds.
pub const DEFAULT_SYNC_TTL_SECS: u64 = 600;

/// The value of the decimal digit `c`.
pub open spec fn digit_value(c: char) -> nat {
    (c as u8 - 48) as nat
}

/// The number that the decimal digits `s` write.
pub open spec fn decimal_value(s: Seq<char>) -> nat
    decreases s.len(),
{
    if s.len() == 0 {
        0
    } else {
        decimal_value(s.drop_last()) * 10 + digit_value(s.last())
    }
}

/// Whether `s` holds decimal digits alone.
pub open spec fn all_digits(s: Seq<char>) -> bool {
    forall|i: int| 0 <= i < s.len() ==> is_digit(#[trigger] s[i])
}

/// The number that `s` writes: one or more decimal digits, a plus sign in
/// front of them allowed, and the number no greater than `u64::MAX`.
pub open spec fn parsed_u64(s: Seq<char>) -> Option<u64> {
    let digits = if s.len() > 0 && s[0] == '+' {
        s.drop_first()
    } else {
        s
    };
    if digits.len() > 0 && all_digits(digits) && decimal_value(digits) <= u64::MAX {
        Some(decimal_value(digits) as u64)
    } else {
        None
    }
}

/// The decimal digit of `d`.
pub open spec fn digit_char(d: nat) -> char {
    ((48 + d) as u8) as char
}

/// `n` in decimal digits, without leading zeros.
pub open spec fn decimal(n: nat) -> Seq<char>
    decreases n,
{
    if n < 10 {
        seq![digit_char(n)]
    } else {
        decimal(n / 10).push(digit_char(n % 10))
    }
}

/// The hexadecimal digit of `d`, in lower case.
pub open spec fn hex_char(d: nat) -> char {
    if d < 10 {
        ((48 + d) as u8) as char
    } else {
        ((87 + d) as u8) as char
    }
}

/// The last `width` hexadecimal digits of `n`, padded with zeros.
pub open spec fn hex(n: nat, width: nat) -> Seq<char>
    decreases width,
{
    if width == 0 {
        Seq::empty()
    } else {
        hex(n / 16, (width - 1) as nat).push(hex_char(n % 16))
    }
}

/// A longer prefix of digits writes no smaller a number.
proof fn lemma_decimal_value_prefix(s: Seq<char>, k: int)
    requires
        0 <= k <= s.len(),
    ensures
        decimal_value(s.take(k)) <= decimal_value(s),
    decreases s.len() - k,
{
    if k < s.len() {
        assert(s.take(k + 1).drop_last() =~= s.take(k));
        lemma_decimal_value_prefix(s, k + 1);
    } else {
        assert(s.take(k) =~= s);
    }
}

/// The number that `s` writes, as `u64`.
pub fn parse_u64(s: &Vec<char>) -> (r: Option<u64>)
    ensures
        r == parsed_u64(s@),
{
    let n = s.len();
    let start: usize = if n > 0 && s[0] == '+' {
        1
    } else {
        0
    };
    let ghost digits = s@.skip(start as int);
    proof {
        if start == 1 {
            assert(digits =~= s@.drop_first());
        } else {
            assert(digits =~= s@);
        }
    }
    if start == n {
        return None;
    }
    let mut acc: u64 = 0;
    let mut i: usize = start;
    assert(digits.take(0) =~= Seq::<char>::empty());
    while i < n
        invariant
            start <= i <= n,
            n == s.len(),
            digits == s@.skip(start as int),
            digits == if s@.len() > 0 && s@[0] == '+' {
                s@.drop_first()
            } else {
                s@
            },
            all_digits(digits.take(i - start)),
            acc == decimal_value(digits.take(i - start)),
        decreases n - i,
    {
        let c = s[i];
        proof {
            assert(digits[i - start] == c);
            assert(digits.take(i - start + 1).drop_last() =~= digits.take(i - start));
            assert(digits.take(i - start + 1).last() == c);
        }
        if !char_is_digit(c) {
            assert(!all_digits(digits));
            return None;
        }
        let d: u64 = (c as u8 - 48) as u64;
        if acc > (u64::MAX - d) / 10 {
            proof {
                lemma_decimal_value_prefix(digits, i - start + 1);
            }
            return None;
        }
        acc = acc * 10 + d;
        proof {
            assert forall|k: int| 0 <= k < i - start + 1 implies is_digit(
                #[trigger] digits.take(i - start + 1)[k],
            ) by {
                if k < i - start {
                    assert(digits.take(i - start)[k] == digits[k]);
                }
            }
        }
        i += 1;
    }
    assert(digits.take(n - start) =~= digits);
    Some(acc)
}

/// `n` in decimal digits.
pub fn to_decimal(n: u64) -> (s: String)
    ensures
        s@ == decimal(n as nat),
{
    let mut out: Vec<char> = Vec::new();
    let mut x: u64 = n;
    while x >= 10
        invariant
            decimal(n as nat) == decimal(x as nat) + out@,
        decreases x,
    {
        let c = ((48 + (x % 10)) as u8) as char;
        let ghost before = out@;
        out.insert(0, c);
        proof {
            assert(out@ =~= seq![c] + before);
            assert(decimal((x / 10) as nat).push(c) + before =~= decimal((x / 10) as nat) + out@);
        }
        x = x / 10;
    }
    let c = ((48 + x) as u8) as char;
    let ghost before = out@;
    out.insert(0, c);
    assert(out@ =~= seq![c] + before);
    from_chars(&out)
}

/// The last sixteen hexadecimal digits of `n`.
pub fn to_hex16(n: u64) -> (s: String)
    ensures
        s@ == hex(n as nat, 16),
{
    let mut out: Vec<char> = Vec::new();
    let mut x: u64 = n;
    let mut i: u8 = 0;
    assert(hex(x as nat, 16) + out@ =~= hex(n as nat, 16));
    while i < 16
        invariant
            i <= 16,
            hex(n as nat, 16) == hex(x as nat, (16 - i) as nat) + out@,
        decreases 16 - i,
    {
        let d = x % 16;
        let c = if d < 10 {
            ((48 + d) as u8) as char
        } else {
            ((87 + d) as u8) as char
        };
        let ghost before = out@;
        out.insert(0, c);
        proof {
            assert(out@ =~= seq![c] + before);
            assert(hex((x / 16) as nat, (15 - i) as nat).push(c) + before =~= hex(
                (x / 16) as nat,
                (15 - i) as nat,
            ) + out@);
        }
        x = x / 16;
        i += 1;
    }
    assert(Seq::<char>::empty() + out@ =~= out@);
    from_chars(&out)
}

/// Whether a value of the environment switches a flag on: `1`, `true` or
/// `yes`, in any case, whitespace around it apart.
pub open spec fn is_truthy(value: Seq<char>) -> bool {
    let v = lower_seq(trim(value));
    v == "1"@ || v == "true"@ || v == "yes"@
}

/// Whether every cache is to be passed by: where the variable that forces
/// fresh work is set to `1`, `true` or `yes`.
pub fn force_fresh(var: Option<&str>) -> (b: bool)
    ensures
        b == match var {
            Some(v) => is_truthy(v@),
            None => false,
        },
{
    match var {
        Some(v) => {
            let low = lowered(&trimmed(&to_chars(v)));
            same(&low, &to_chars("1")) || same(&low, &to_chars("true")) || same(
                &low,
                &to_chars("yes"),
            )
        },
        None => false,
    }
}

/// The time to live of a synchronisation: what the variable writes, or
/// `DEFAULT_SYNC_TTL_SECS` where it is not set or writes no number.
pub fn sync_ttl_secs(var: Option<&str>) -> (ttl: u64)
    ensures
        ttl == match var {
            Some(v) => match parsed_u64(trim(v@)) {
                Some(n) => n,
                None => DEFAULT_SYNC_TTL_SECS,
            },
            None => DEFAULT_SYNC_TTL_SECS,
        },
{
    match var {
        Some(v) => match parse_u64(&trimmed(&to_chars(v))) {
            Some(n) => n,
            None => DEFAULT_SYNC_TTL_SECS,
        },
        None => DEFAULT_SYNC_TTL_SECS,
    }
}

/// Whether a key is fresh at second `now`: never where fresh work is forced
/// or its stamp is missing or writes no number; else where no more than `ttl`
/// seconds have passed since the second that the stamp writes.
pub open spec fn fresh(force: bool, stamp: Option<Seq<char>>, now: u64, ttl: u64) -> bool {
    !force && match stamp {
        Some(text) => match parsed_u64(trim(text)) {
            Some(last) => now - last <= ttl,
            None => false,
        },
        None => false,
    }
}

/// Whether a key is fresh. `stamp` is the text of its stamp, if it could be
/// read.
pub fn is_fresh(force: bool, stamp: Option<&str>, now: u64, ttl: u64) -> (b: bool)
    ensures
        b == fresh(
            force,
            match stamp {
                Some(t) => Some(t@),
                None => None,
            },
            now,
            ttl,
        ),
{
    if force {
        return false;
    }
    match stamp {
        Some(text) => match parse_u64(&trimmed(&to_chars(text))) {
            Some(last) => now <= last || now - last <= ttl,
            None => false,
        },
        None => false,
    }
}

/// The text of the stamp of a key that is marked at second `now`.
pub fn mark(now: u64) -> (stamp: String)
    ensures
        stamp@ == decimal(now as nat),
{
    to_decimal(now)
}

/// The hash of a key: that of std's default hasher over the key's bytes and
/// the byte that ends a string.
pub open spec fn key_hash(key: Seq<char>) -> u64 {
    DefaultHasher::spec_finish(seq![encode_utf8(key), seq![0xffu8]])
}

/// The name of the hash of `key`: its sixteen hexadecimal digits.
pub fn stable_hash(key: &str) -> (name: String)
    ensures
        name@ == hex(key_hash(key@) as nat, 16),
{
    let mut hasher = DefaultHasher::new();
    hasher.write(key.as_bytes());
    let end: [u8; 1] = [0xff];
    let last = end.as_slice();
    assert(last@ =~= seq![0xffu8]);
    hasher.write(last);
    assert(hasher@ =~= seq![encode_utf8(key@), seq![0xffu8]]);
    to_hex16(hasher.finish())
}

/// Where the stamp of `key` lies under the cache directory.
pub fn key_path(cache_dir: &str, key: &str) -> (path: String)
    ensures
        path@ == cache_dir@ + "/"@ + hex(key_hash(key@) as nat, 16) + ".stamp"@,
{
    let name = stable_hash(key);
    join4(cache_dir, "/", name.as_str(), ".stamp")
}

/// The cache directory of the user: the one that the environment names, or
/// `.cache` in the home directory, or in the current directory where the
/// environment names no home.
pub fn xdg_cache_home(xdg: Option<&str>, home: Option<&str>) -> (dir: String)
    ensures
        dir@ == if xdg is Some && xdg->0@.len() > 0 {
            xdg->0@
        } else if home is Some {
            home->0@ + "/.cache"@
        } else {
            "."@ + "/.cache"@
        },
{
    match xdg {
        Some(v) => {
            if v.unicode_len() > 0 {
                return v.to_owned();
            }
        },
        None => {},
    }
    match home {
        Some(h) => join2(h, "/.cache"),
        None => join2(".", "/.cache"),
    }
}

/// The directory of this tool under the cache directory of the user.
pub fn vx_cache_dir(cache_home: &str) -> (dir: String)
    ensures
        dir@ == cache_home@ + "/vx"@,
{
    join2(cache_home, "/vx")
}

/// The decimal digits of a number are digits alone, begin with no plus
/// sign, and write that number.
pub proof fn lemma_decimal_writes(n: nat)
    ensures
        decimal(n).len() > 0,
        all_digits(decimal(n)),
        decimal_value(decimal(n)) == n,
    decreases n,
{
    if n < 10 {
        let s = decimal(n);
        assert(s.drop_last() =~= Seq::<char>::empty());
        assert(decimal_value(s.drop_last()) == 0);
    } else {
        lemma_decimal_writes(n / 10);
        let s = decimal(n);
        assert(s.drop_last() =~= decimal(n / 10));
        assert forall|i: int| 0 <= i < s.len() implies is_digit(#[trigger] s[i]) by {
            if i < s.len() - 1 {
                assert(s[i] == decimal(n / 10)[i]);
            }
        }
    }
}

/// A stamp reads back as the second at which it was written.
pub proof fn lemma_stamp_reads_back(now: u64)
    ensures
        parsed_u64(trim(decimal(now as nat))) == Some(now),
{
    let s = decimal(now as nat);
    lemma_decimal_writes(now as nat);
    assert(is_digit(s[0]) && is_digit(s.last()));
    assert(trim_start(s) == s);
    assert(trim_end(s) == s);
}

/// A key is fresh at the second at which it is marked, whatever the time to
/// live; it is stale once more seconds than the time to live have passed;
/// and it is never fresh where fresh work is forced.
pub proof fn lemma_fresh_after_mark(marked: u64, now: u64, ttl: u64, stamp: Option<Seq<char>>)
    ensures
        fresh(false, Some(decimal(marked as nat)), marked, ttl),
        now - marked > ttl ==> !fresh(false, Some(decimal(marked as nat)), now, ttl),
        now - marked <= ttl ==> fresh(false, Some(decimal(marked as nat)), now, ttl),
        !fresh(true, stamp, now, ttl),
{
    lemma_stamp_reads_back(marked);
}

} // verus!
