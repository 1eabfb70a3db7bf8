//! The on-disk identity record format: comment lines introduced by `#`,
//! blank lines, and exactly one key line holding a native X25519 secret key.
//! Records with zero or several key lines are rejected as malformed, and a
//! key line of any other kind is rejected as unsupported.

use vstd::prelude::*;

verus! {

use crate::VaultError;
use crate::keys::{derived_public, str_views, age_derive_public};

/// A line of an identity record carries key material when it is neither
/// blank nor a comment.
pub open spec fn is_key_line(l: Seq<char>) -> bool {
    l.len() > 0 && l[0] != '#'
}

/// The key lines of a record, in order.
pub open spec fn key_lines(lines: Seq<Seq<char>>) -> Seq<Seq<char>> {
    lines.filter(|l: Seq<char>| is_key_line(l))
}

/// A native key line is tagged with the X25519 secret-key prefix, in either
/// of the two casings that the Bech32 encoding admits.
pub open spec fn has_native_tag(l: Seq<char>) -> bool {
    l.len() >= 15 && (l.subrange(0, 15) == "AGE-SECRET-KEY-"@ || l.subrange(0, 15)
        == "age-secret-key-"@)
}

fn line_is_key(line: &String) -> (r: bool)
    ensures
        r == is_key_line(line@),
{
    if line.as_str().unicode_len() == 0 {
        return false;
    }
    let c = line.as_str().get_char(0);
    c != '#'
}

fn line_has_native_tag(line: &String) -> (r: bool)
    ensures
        r == has_native_tag(line@),
{
    let upper = "AGE-SECRET-KEY-";
    let lower = "age-secret-key-";
    proof {
        reveal_strlit("AGE-SECRET-KEY-");
        reveal_strlit("age-secret-key-");
    }
    if line.as_str().unicode_len() < 15 {
        return false;
    }
    let mut upper_ok: bool = true;
    let mut lower_ok: bool = true;
    let mut i: usize = 0;
    while i < 15
        invariant
            0 <= i <= 15,
            line@.len() >= 15,
            upper@ == "AGE-SECRET-KEY-"@,
            lower@ == "age-secret-key-"@,
            upper@.len() == 15,
            lower@.len() == 15,
            upper_ok == (forall|j: int| 0 <= j < i as int ==> line@[j] == upper@[j]),
            lower_ok == (forall|j: int| 0 <= j < i as int ==> line@[j] == lower@[j]),
        decreases 15 - i,
    {
        let c = line.as_str().get_char(i);
        if c != upper.get_char(i) {
            upper_ok = false;
        }
        if c != lower.get_char(i) {
            lower_ok = false;
        }
        i += 1;
    }
    proof {
        if upper_ok {
            assert(line@.subrange(0, 15) =~= upper@);
        } else {
            assert(line@.subrange(0, 15) != upper@) by {
                let j = choose|j: int| 0 <= j < 15 && line@[j] != upper@[j];
                assert(line@.subrange(0, 15)[j] == line@[j]);
            }
        }
        if lower_ok {
            assert(line@.subrange(0, 15) =~= lower@);
        } else {
            assert(line@.subrange(0, 15) != lower@) by {
                let j = choose|j: int| 0 <= j < 15 && line@[j] != lower@[j];
                assert(line@.subrange(0, 15)[j] == line@[j]);
            }
        }
    }
    upper_ok || lower_ok
}

/// What reading the key out of a record yields: its single key line, or the
/// error owed when the record holds no key line or several, a key line of a
/// kind other than a native X25519 key, or key material that does not parse.
pub open spec fn import_key_spec(lines: Seq<Seq<char>>) -> Result<Seq<char>, VaultError> {
    if key_lines(lines).len() != 1 {
        Err(VaultError::MalformedKey)
    } else if !has_native_tag(key_lines(lines)[0]) {
        Err(VaultError::UnsupportedKeyKind)
    } else if derived_public(key_lines(lines)[0]) is None {
        Err(VaultError::MalformedKey)
    } else {
        Ok(key_lines(lines)[0])
    }
}

/// Reads the single private key out of an identity record, rejecting records
/// that hold no key line or several, key lines of a kind other than a native
/// X25519 key, and key material that does not parse.
pub fn identity_key_from_record(lines: &Vec<String>) -> (r: Result<String, VaultError>)
    ensures
        match r {
            Ok(key) => import_key_spec(str_views(lines@)) == Ok::<Seq<char>, VaultError>(key@),
            Err(e) => import_key_spec(str_views(lines@)) == Err::<Seq<char>, VaultError>(e),
        },
{
    let ghost views = str_views(lines@);
    let n = lines.len();
    let mut found: Option<String> = None;
    let mut count: usize = 0;
    let mut i: usize = 0;
    while i < n
        invariant
            n == lines@.len(),
            0 <= i <= n,
            views == str_views(lines@),
            count as int == key_lines(views.take(i as int)).len(),
            count as int <= i as int,
            count > 0 ==> (found matches Some(f) && f@ == key_lines(views.take(i as int))[0]),
            count == 0 ==> found is None,
        decreases n - i,
    {
        proof {
            reveal(Seq::filter);
            let pre = views.take(i as int);
            let post = views.take(i as int + 1);
            assert(post.drop_last() =~= pre);
            assert(post.last() == views[i as int]);
            assert(key_lines(post) == (if is_key_line(views[i as int]) {
                key_lines(pre).push(views[i as int])
            } else {
                key_lines(pre)
            }));
            assert(views[i as int] == lines@[i as int]@);
        }
        if line_is_key(&lines[i]) {
            if count == 0 {
                found = Some(lines[i].clone());
            }
            count += 1;
        }
        i += 1;
    }
    proof {
        assert(views.take(n as int) =~= views);
    }
    if count != 1 {
        return Err(VaultError::MalformedKey);
    }
    let key = match found {
        Some(k) => k,
        None => {
            return Err(VaultError::MalformedKey);
        },
    };
    if !line_has_native_tag(&key) {
        return Err(VaultError::UnsupportedKeyKind);
    }
    match age_derive_public(&key) {
        Some(_) => Ok(key),
        None => Err(VaultError::MalformedKey),
    }
}

} // verus!
