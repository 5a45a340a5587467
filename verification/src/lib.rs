//! Core of an ephemeral execution-session pipeline: staging untrusted input
//! into an isolated scratch directory, building a safe argument vector for an
//! external media tool, and packaging the tool's results for delivery.
//!
//! The library holds the decision logic only. Everything that touches the
//! disk, the network or a child process is performed by an unverified driver,
//! which follows the plans (`FileWrite`, `ToolInvocation`, `FileRemoval`)
//! that the verified code hands out and feeds the observed results back in.

pub mod args;
pub mod error;
pub mod invoke;
pub mod package;
pub mod session;
pub mod text;

use vstd::prelude::*;

use crate::text::{assoc_lookup, spec_assoc_lookup, str_eq};
use vstd::string::StringExecFns;

verus! {

/// The base of every asset URL derived from platform metadata.
pub const BASE_CDN_URL: &'static str = "https://cdn.discordapp.com";

/// One locale's message catalog: its locale tag and its key-to-text entries.
pub struct LocaleCatalog {
    pub locale: String,
    pub entries: Vec<(String, String)>,
}

/// All message catalogs, with the locale tag to fall back to when a key is
/// missing from the requested locale's catalog.
pub struct LocaleTable {
    pub catalogs: Vec<LocaleCatalog>,
    pub fallback: String,
}

/// The catalog entries of a locale tag; the first matching catalog wins.
pub open spec fn spec_catalog_lookup(catalogs: Seq<LocaleCatalog>, locale: Seq<char>) -> Option<
    Seq<(String, String)>,
>
    decreases catalogs.len(),
{
    if catalogs.len() == 0 {
        None
    } else if catalogs[0].locale@ == locale {
        Some(catalogs[0].entries@)
    } else {
        spec_catalog_lookup(catalogs.skip(1), locale)
    }
}

/// The translated text of `key` in `locale`: the locale's own entry when it
/// has one, otherwise the fallback locale's entry, otherwise the key itself.
pub open spec fn spec_translate(table: LocaleTable, key: Seq<char>, locale: Seq<char>) -> Seq<
    char,
> {
    let own = match spec_catalog_lookup(table.catalogs@, locale) {
        Some(es) => spec_assoc_lookup(es, key),
        None => None,
    };
    match own {
        Some(v) => v,
        None => match spec_catalog_lookup(table.catalogs@, table.fallback@) {
            Some(es) => match spec_assoc_lookup(es, key) {
                Some(v) => v,
                None => key,
            },
            None => key,
        },
    }
}

/// The catalog of one locale tag, if the table has one.
fn catalog_lookup<'a>(catalogs: &'a Vec<LocaleCatalog>, locale: &str) -> (r: Option<
    &'a LocaleCatalog,
>)
    ensures
        spec_catalog_lookup(catalogs@, locale@) matches Some(es) ==> (r matches Some(c) && c.entries@
            == es),
        spec_catalog_lookup(catalogs@, locale@) is None ==> r is None,
{
    proof {
        assert(catalogs@.skip(0int) =~= catalogs@);
    }
    let mut i: usize = 0;
    while i < catalogs.len()
        invariant
            i <= catalogs@.len(),
            spec_catalog_lookup(catalogs@, locale@) == spec_catalog_lookup(
                catalogs@.skip(i as int),
                locale@,
            ),
        decreases catalogs@.len() - i,
    {
        proof {
            assert(catalogs@.skip(i as int)[0] == catalogs@[i as int]);
            assert(catalogs@.skip(i as int).skip(1) =~= catalogs@.skip(i + 1 as int));
        }
        if str_eq(catalogs[i].locale.as_str(), locale) {
            return Some(&catalogs[i]);
        }
        i += 1;
    }
    proof {
        assert(catalogs@.skip(catalogs@.len() as int).len() == 0);
    }
    None
}

/// Translates `key` into `locale` through the table, with the table's
/// fallback locale behind it and the key itself as the last resort.
pub fn translate(table: &LocaleTable, key: &str, locale: &str) -> (r: String)
    ensures
        r@ == spec_translate(*table, key@, locale@),
{
    if let Some(catalog) = catalog_lookup(&table.catalogs, locale) {
        if let Some(v) = assoc_lookup(&catalog.entries, key) {
            return v;
        }
    }
    if let Some(catalog) = catalog_lookup(&table.catalogs, table.fallback.as_str()) {
        if let Some(v) = assoc_lookup(&catalog.entries, key) {
            return v;
        }
    }
    String::from_str(key)
}

/// The translations of one key into every locale the table knows, in the
/// table's order, each with its locale tag.
pub fn get_localizations_of(key: &str, table: &LocaleTable) -> (r: Vec<(String, String)>)
    ensures
        r@.len() == table.catalogs@.len(),
        forall|i: int|
            0 <= i < r@.len() ==> (#[trigger] r@[i]).0@ == table.catalogs@[i].locale@ && r@[i].1@
                == spec_translate(*table, key@, table.catalogs@[i].locale@),
{
    let mut r: Vec<(String, String)> = Vec::new();
    let mut i: usize = 0;
    while i < table.catalogs.len()
        invariant
            i <= table.catalogs@.len(),
            r@.len() == i,
            forall|j: int|
                0 <= j < i ==> (#[trigger] r@[j]).0@ == table.catalogs@[j].locale@ && r@[j].1@
                    == spec_translate(*table, key@, table.catalogs@[j].locale@),
        decreases table.catalogs@.len() - i,
    {
        let locale = table.catalogs[i].locale.clone();
        let text = translate(table, key, locale.as_str());
        r.push((locale, text));
        i += 1;
    }
    r
}

/// The character of one decimal digit.
pub open spec fn spec_digit_char(d: nat) -> char {
    if d == 0 {
        '0'
    } else if d == 1 {
        '1'
    } else if d == 2 {
        '2'
    } else if d == 3 {
        '3'
    } else if d == 4 {
        '4'
    } else if d == 5 {
        '5'
    } else if d == 6 {
        '6'
    } else if d == 7 {
        '7'
    } else if d == 8 {
        '8'
    } else {
        '9'
    }
}

/// The decimal numeral of a number, most significant digit first.
pub open spec fn spec_decimal(n: nat) -> Seq<char>
    decreases n,
{
    if n < 10 {
        seq![spec_digit_char(n)]
    } else {
        spec_decimal(n / 10) + seq![spec_digit_char(n % 10)]
    }
}

/// The character of one decimal digit, on real input.
fn digit_char(d: u64) -> (r: char)
    requires
        d < 10,
    ensures
        r == spec_digit_char(d as nat),
{
    if d == 0 {
        '0'
    } else if d == 1 {
        '1'
    } else if d == 2 {
        '2'
    } else if d == 3 {
        '3'
    } else if d == 4 {
        '4'
    } else if d == 5 {
        '5'
    } else if d == 6 {
        '6'
    } else if d == 7 {
        '7'
    } else if d == 8 {
        '8'
    } else {
        '9'
    }
}

/// Writes a number as its decimal numeral.
pub fn u64_to_string(n: u64) -> (r: String)
    ensures
        r@ == spec_decimal(n as nat),
{
    let mut digits: Vec<char> = Vec::new();
    let ghost mut tail: Seq<char> = Seq::empty();
    let mut m = n;
    if m == 0 {
        digits.push('0');
        proof {
            tail = seq!['0'];
        }
    }
    while m > 0
        invariant
            digits@.len() == tail.len(),
            forall|i: int| 0 <= i < tail.len() ==> tail[i] == digits@[tail.len() - 1 - i],
            m > 0 ==> spec_decimal(n as nat) == spec_decimal(m as nat) + tail,
            m == 0 ==> spec_decimal(n as nat) == tail,
        decreases m,
    {
        let d = m % 10;
        let ghost old_tail = tail;
        digits.push(digit_char(d));
        proof {
            tail = seq![spec_digit_char(d as nat)] + old_tail;
            if m >= 10 {
                assert(spec_decimal(m as nat) == spec_decimal((m as nat) / 10) + seq![
                    spec_digit_char((m as nat) % 10),
                ]);
            }
            assert(spec_decimal(m as nat) + old_tail =~= (if m >= 10 {
                spec_decimal((m / 10) as nat)
            } else {
                Seq::<char>::empty()
            }) + tail);
        }
        m = m / 10;
    }
    let mut r = String::new();
    let len = digits.len();
    let mut j: usize = 0;
    while j < len
        invariant
            j <= len,
            len == digits@.len(),
            len == tail.len(),
            forall|i: int| 0 <= i < tail.len() ==> tail[i] == digits@[tail.len() - 1 - i],
            spec_decimal(n as nat) == tail,
            r@ == tail.take(j as int),
        decreases len - j,
    {
        r.push(digits[len - 1 - j]);
        proof {
            assert(r@ =~= tail.take(j + 1 as int));
        }
        j += 1;
    }
    proof {
        assert(tail.take(len as int) =~= tail);
    }
    r
}

/// The avatar URL of a user: the CDN base, the avatars path, the user's
/// numeric identifier and the avatar hash, as a png resource.
pub open spec fn spec_avatar_url(user_id: nat, hash: Seq<char>) -> Seq<char> {
    "https://cdn.discordapp.com"@ + "/avatars/"@ + spec_decimal(user_id) + seq!['/'] + hash
        + ".png"@
}

/// Derives the avatar URL of a user from its identifier and avatar hash; a
/// user without an avatar hash has no avatar URL.
pub fn get_avatar_url(user_id: u64, avatar_hash: &Option<String>) -> (r: Option<String>)
    ensures
        avatar_hash matches Some(h) ==> (r matches Some(u) && u@ == spec_avatar_url(
            user_id as nat,
            h@,
        )),
        avatar_hash is None ==> r is None,
{
    match avatar_hash {
        None => None,
        Some(h) => {
            let mut u = String::from_str(BASE_CDN_URL);
            u.append("/avatars/");
            let id = u64_to_string(user_id);
            u.append(id.as_str());
            u.append("/");
            u.append(h.as_str());
            u.append(".png");
            proof {
                reveal_strlit("/");
                assert("/"@ =~= seq!['/']);
                assert(u@ =~= spec_avatar_url(user_id as nat, h@));
            }
            Some(u)
        },
    }
}

} // verus!
