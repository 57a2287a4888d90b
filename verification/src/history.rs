//! The per-channel history ledger.
//!
//! A ledger maps the date of each synced release to the artifact paths that
//! release introduced. Dates are ISO `YYYY-MM-DD` strings; anything else is
//! rejected when an entry is added, so that ordering dates orders releases.
use vstd::prelude::*;

use crate::errors::SyncError;
use crate::strutil::contains_view;

verus! {

/// Whether the character is a decimal digit.
pub open spec fn is_digit(c: char) -> bool {
    48 <= c as u32 <= 57
}

/// The value of a decimal digit character.
pub open spec fn digit_val(c: char) -> int {
    c as u32 - 48
}

/// Whether the characters form an ISO `YYYY-MM-DD` date.
pub open spec fn is_iso_date(s: Seq<char>) -> bool {
    &&& s.len() == 10
    &&& s[4] == '-'
    &&& s[7] == '-'
    &&& forall|i: int| 0 <= i < 10 && i != 4 && i != 7 ==> is_digit(#[trigger] s[i])
}

/// The date as the number `YYYYMMDD`; later dates get larger numbers.
pub open spec fn date_key(s: Seq<char>) -> int {
    digit_val(s[0]) * 10000000 + digit_val(s[1]) * 1000000 + digit_val(s[2]) * 100000 + digit_val(
        s[3],
    ) * 10000 + digit_val(s[5]) * 1000 + digit_val(s[6]) * 100 + digit_val(s[8]) * 10 + digit_val(
        s[9],
    )
}

/// Reads one digit of a date string.
fn digit_at(s: &String, i: usize) -> (r: Option<u32>)
    requires
        i < s@.len(),
    ensures
        r is Some <==> is_digit(s@[i as int]),
        r is Some ==> r->0 == digit_val(s@[i as int]),
{
    let c = s.as_str().get_char(i);
    let v = c as u32;
    if 48 <= v && v <= 57 {
        Some(v - 48)
    } else {
        None
    }
}

/// Parses an ISO `YYYY-MM-DD` date into its numeric key, rejecting any
/// other shape.
pub fn date_key_exec(s: &String) -> (r: Option<u32>)
    ensures
        r is Some <==> is_iso_date(s@),
        r is Some ==> r->0 == date_key(s@),
{
    let n: usize = s.as_str().unicode_len();
    if n != 10 {
        return None;
    }
    if s.as_str().get_char(4) != '-' {
        return None;
    }
    if s.as_str().get_char(7) != '-' {
        return None;
    }
    let d0 = match digit_at(s, 0) {
        Some(d) => d,
        None => {
            return None;
        },
    };
    let d1 = match digit_at(s, 1) {
        Some(d) => d,
        None => {
            return None;
        },
    };
    let d2 = match digit_at(s, 2) {
        Some(d) => d,
        None => {
            return None;
        },
    };
    let d3 = match digit_at(s, 3) {
        Some(d) => d,
        None => {
            return None;
        },
    };
    let d5 = match digit_at(s, 5) {
        Some(d) => d,
        None => {
            return None;
        },
    };
    let d6 = match digit_at(s, 6) {
        Some(d) => d,
        None => {
            return None;
        },
    };
    let d8 = match digit_at(s, 8) {
        Some(d) => d,
        None => {
            return None;
        },
    };
    let d9 = match digit_at(s, 9) {
        Some(d) => d,
        None => {
            return None;
        },
    };
    let key: u32 = d0 * 10000000 + d1 * 1000000 + d2 * 100000 + d3 * 10000 + d5 * 1000 + d6 * 100
        + d8 * 10 + d9;
    proof {
        assert(is_iso_date(s@));
        assert(key == date_key(s@));
    }
    Some(key)
}

/// A channel's history ledger: each synced release date with the artifact
/// paths it introduced.
pub struct ChannelHistoryFile {
    /// The entries, one per date, dates unique and ISO-formed.
    pub versions: Vec<(String, Vec<String>)>,
}

impl ChannelHistoryFile {
    /// Dates are unique and ISO-formed.
    pub open spec fn wf(&self) -> bool {
        &&& forall|i: int, j: int|
            0 <= i < j < self.versions@.len() ==> (#[trigger] self.versions@[i]).0@ != (
            #[trigger] self.versions@[j]).0@
        &&& forall|i: int|
            0 <= i < self.versions@.len() ==> is_iso_date((#[trigger] self.versions@[i]).0@)
    }

    /// Whether the ledger has an entry for the date.
    pub open spec fn has_date(&self, d: Seq<char>) -> bool {
        exists|i: int| 0 <= i < self.versions@.len() && (#[trigger] self.versions@[i]).0@ == d
    }

    /// The paths listed under the date; meaningful only when the date is
    /// present.
    pub open spec fn lookup(&self, d: Seq<char>) -> Seq<Seq<char>> {
        let i = choose|i: int| 0 <= i < self.versions@.len() && (#[trigger] self.versions@[i]).0@
            == d;
        self.versions@[i].1.deep_view()
    }

    /// Whether some entry lists the path.
    pub open spec fn lists_path(&self, p: Seq<char>) -> bool {
        exists|i: int|
            0 <= i < self.versions@.len() && (#[trigger] self.versions@[i]).1.deep_view().contains(
                p,
            )
    }

    /// An empty ledger, used when none is on disk yet.
    pub fn new() -> (r: ChannelHistoryFile)
        ensures
            r.wf(),
            r.versions@.len() == 0,
    {
        ChannelHistoryFile { versions: Vec::new() }
    }
}

/// The artifact paths of a download list: the first component of each
/// (path, digest) pair.
pub open spec fn first_components(files: Seq<(String, String)>) -> Seq<Seq<char>> {
    Seq::new(files.len(), |i: int| files[i].0@)
}

/// Copies a vector of strings.
pub fn clone_string_vec(v: &Vec<String>) -> (r: Vec<String>)
    ensures
        r@.len() == v@.len(),
        forall|k: int| 0 <= k < v@.len() ==> (#[trigger] r@[k])@ == v@[k]@,
        r.deep_view() == v.deep_view(),
{
    let mut r: Vec<String> = Vec::new();
    let mut i: usize = 0;
    while i < v.len()
        invariant
            i <= v@.len(),
            r@.len() == i,
            forall|k: int| 0 <= k < i ==> (#[trigger] r@[k])@ == v@[k]@,
        decreases v@.len() - i,
    {
        r.push(v[i].clone());
        i = i + 1;
    }
    proof {
        assert(r.deep_view() =~= v.deep_view());
    }
    r
}

/// Records that the dated release introduced the listed (path, digest)
/// pairs: the entry under the date now holds exactly those paths, every
/// other entry stays as it was. A date that is not ISO `YYYY-MM-DD` is
/// rejected and the ledger is left untouched.
pub fn add_to_channel_history(
    history: &mut ChannelHistoryFile,
    date: &String,
    files: &Vec<(String, String)>,
) -> (r: Result<(), SyncError>)
    requires
        old(history).wf(),
    ensures
        r is Ok <==> is_iso_date(date@),
        r is Err ==> *final(history) == *old(history) && r->Err_0 is Parse,
        r is Ok ==> final(history).wf(),
        r is Ok ==> final(history).has_date(date@),
        r is Ok ==> final(history).lookup(date@) == first_components(files@),
        r is Ok ==> forall|d: Seq<char>|
            d != date@ ==> (final(history).has_date(d) <==> old(history).has_date(d)),
        r is Ok ==> forall|d: Seq<char>|
            d != date@ && old(history).has_date(d) ==> final(history).lookup(d) == old(
                history,
            ).lookup(d),
{
    if date_key_exec(date).is_none() {
        return Err(SyncError::Parse(String::from_str("non-ISO date in channel manifest")));
    }
    let mut paths: Vec<String> = Vec::new();
    let mut i: usize = 0;
    while i < files.len()
        invariant
            i <= files@.len(),
            paths@.len() == i,
            forall|k: int| 0 <= k < i ==> (#[trigger] paths@[k])@ == files@[k].0@,
        decreases files@.len() - i,
    {
        paths.push(files[i].0.clone());
        i = i + 1;
    }
    proof {
        assert(paths.deep_view() =~= first_components(files@));
    }
    let ghost old_entries = history.versions@;
    let mut out: Vec<(String, Vec<String>)> = Vec::new();
    let mut replaced = false;
    let mut j: usize = 0;
    while j < history.versions.len()
        invariant
            j <= old_entries.len(),
            history.versions@ == old_entries,
            paths.deep_view() == first_components(files@),
            out@.len() == j,
            forall|k: int|
                0 <= k < j && (#[trigger] old_entries[k]).0@ == date@ ==> out@[k].0@ == date@
                    && out@[k].1.deep_view() == first_components(files@),
            forall|k: int|
                0 <= k < j && (#[trigger] old_entries[k]).0@ != date@ ==> out@[k].0@
                    == old_entries[k].0@ && out@[k].1.deep_view() == old_entries[k].1.deep_view(),
            replaced <==> exists|k: int| 0 <= k < j && (#[trigger] old_entries[k]).0@ == date@,
        decreases old_entries.len() - j,
    {
        if history.versions[j].0.eq(date) {
            out.push((date.clone(), clone_string_vec(&paths)));
            replaced = true;
            proof {
                assert((#[trigger] old_entries[j as int]).0@ == date@);
            }
        } else {
            out.push(
                (history.versions[j].0.clone(), clone_string_vec(&history.versions[j].1)),
            );
        }
        j = j + 1;
    }
    if !replaced {
        out.push((date.clone(), paths));
    }
    history.versions = out;
    proof {
        let new_entries = history.versions@;
        assert forall|k: int| 0 <= k < new_entries.len() implies is_iso_date(
            (#[trigger] new_entries[k]).0@,
        ) by {
            if k < old_entries.len() {
                if old_entries[k].0@ == date@ {
                    assert(new_entries[k].0@ == date@);
                } else {
                    assert(new_entries[k].0@ == old_entries[k].0@);
                }
            }
        }
        assert forall|i2: int, j2: int| 0 <= i2 < j2 < new_entries.len() implies (
        #[trigger] new_entries[i2]).0@ != (#[trigger] new_entries[j2]).0@ by {
            if j2 < old_entries.len() {
                assert(old_entries[i2].0@ != old_entries[j2].0@);
                if old_entries[i2].0@ == date@ {
                    assert(new_entries[i2].0@ == date@);
                    assert(new_entries[j2].0@ == old_entries[j2].0@);
                } else if old_entries[j2].0@ == date@ {
                    assert(new_entries[j2].0@ == date@);
                    assert(new_entries[i2].0@ == old_entries[i2].0@);
                } else {
                    assert(new_entries[i2].0@ == old_entries[i2].0@);
                    assert(new_entries[j2].0@ == old_entries[j2].0@);
                }
            } else {
                assert(!replaced);
                assert(new_entries[j2].0@ == date@);
                assert(old_entries[i2].0@ != date@);
                assert(new_entries[i2].0@ == old_entries[i2].0@);
            }
        }
        assert(history.wf());
        assert forall|k: int|
            0 <= k < new_entries.len() && (#[trigger] new_entries[k]).0@
                == date@ implies new_entries[k].1.deep_view() == first_components(files@) by {
            if k < old_entries.len() {
                if old_entries[k].0@ != date@ {
                    assert(new_entries[k].0@ == old_entries[k].0@);
                }
            }
        }
        if replaced {
            let w = choose|k: int| 0 <= k < old_entries.len() && (#[trigger] old_entries[k]).0@
                == date@;
            assert(new_entries[w].0@ == date@);
            assert(history.has_date(date@));
        } else {
            assert(new_entries[new_entries.len() - 1].0@ == date@);
            assert(history.has_date(date@));
        }
        assert forall|d: Seq<char>| d != date@ implies (history.has_date(d) <==> old(
            history,
        ).has_date(d)) by {
            if history.has_date(d) {
                let k = choose|k: int|
                    0 <= k < new_entries.len() && (#[trigger] new_entries[k]).0@ == d;
                if k < old_entries.len() {
                    if old_entries[k].0@ == date@ {
                        assert(new_entries[k].0@ == date@);
                    } else {
                        assert(old_entries[k].0@ == d);
                    }
                }
            }
            if old(history).has_date(d) {
                let k = choose|k: int|
                    0 <= k < old_entries.len() && (#[trigger] old_entries[k]).0@ == d;
                assert(new_entries[k].0@ == d);
            }
        }
        assert forall|d: Seq<char>| d != date@ && old(history).has_date(d) implies history.lookup(
            d,
        ) == old(history).lookup(d) by {
            let k0 = choose|k: int|
                0 <= k < old_entries.len() && (#[trigger] old_entries[k]).0@ == d;
            assert(new_entries[k0].0@ == d);
            assert(history.has_date(d));
            let k1 = choose|k: int|
                0 <= k < new_entries.len() && (#[trigger] new_entries[k]).0@ == d;
            if k1 < old_entries.len() {
                if old_entries[k1].0@ == date@ {
                    assert(new_entries[k1].0@ == date@);
                } else {
                    assert(old_entries[k1].0@ == d);
                    assert(k1 == k0);
                }
            }
        }
        let wl = choose|k: int| 0 <= k < new_entries.len() && (#[trigger] new_entries[k]).0@
            == date@;
        assert(history.lookup(date@) == first_components(files@));
    }
    Ok(())
}

proof fn lemma_char_eq(x: char, y: char)
    requires
        x as u32 == y as u32,
    ensures
        x == y,
{
}

/// Equal date keys come only from equal ISO dates: the key determines
/// every digit, and the format fixes every other character.
pub proof fn lemma_date_key_injective(a: Seq<char>, b: Seq<char>)
    requires
        is_iso_date(a),
        is_iso_date(b),
        date_key(a) == date_key(b),
    ensures
        a == b,
{
    assert(is_digit(a[0]) && is_digit(a[1]) && is_digit(a[2]) && is_digit(a[3]) && is_digit(a[5])
        && is_digit(a[6]) && is_digit(a[8]) && is_digit(a[9]));
    assert(is_digit(b[0]) && is_digit(b[1]) && is_digit(b[2]) && is_digit(b[3]) && is_digit(b[5])
        && is_digit(b[6]) && is_digit(b[8]) && is_digit(b[9]));
    assert(digit_val(a[0]) == digit_val(b[0]) && digit_val(a[1]) == digit_val(b[1]) && digit_val(
        a[2],
    ) == digit_val(b[2]) && digit_val(a[3]) == digit_val(b[3]) && digit_val(a[5]) == digit_val(
        b[5],
    ) && digit_val(a[6]) == digit_val(b[6]) && digit_val(a[8]) == digit_val(b[8]) && digit_val(
        a[9],
    ) == digit_val(b[9]));
    assert forall|i: int| 0 <= i < 10 implies a[i] == b[i] by {
        if i == 0 {
            lemma_char_eq(a[0], b[0]);
        } else if i == 1 {
            lemma_char_eq(a[1], b[1]);
        } else if i == 2 {
            lemma_char_eq(a[2], b[2]);
        } else if i == 3 {
            lemma_char_eq(a[3], b[3]);
        } else if i == 5 {
            lemma_char_eq(a[5], b[5]);
        } else if i == 6 {
            lemma_char_eq(a[6], b[6]);
        } else if i == 8 {
            lemma_char_eq(a[8], b[8]);
        } else if i == 9 {
            lemma_char_eq(a[9], b[9]);
        }
    }
    assert(a =~= b);
}

/// How many ledger entries carry a strictly later date than `d`.
pub open spec fn later_count(entries: Seq<(String, Vec<String>)>, d: Seq<char>) -> int
    decreases entries.len(),
{
    if entries.len() == 0 {
        0int
    } else {
        later_count(entries.drop_last(), d) + if date_key(entries.last().0@) > date_key(d) {
            1int
        } else {
            0int
        }
    }
}

/// How many of the strings carry a strictly later date than `d`.
pub open spec fn later_count_in(v: Seq<String>, d: Seq<char>) -> int
    decreases v.len(),
{
    if v.len() == 0 {
        0int
    } else {
        later_count_in(v.drop_last(), d) + if date_key(v.last()@) > date_key(d) {
            1int
        } else {
            0int
        }
    }
}

proof fn lemma_later_count_in_bounds(v: Seq<String>, d: Seq<char>)
    ensures
        0 <= later_count_in(v, d) <= v.len(),
    decreases v.len(),
{
    if v.len() > 0 {
        lemma_later_count_in_bounds(v.drop_last(), d);
    }
}

proof fn lemma_later_count_in_zero(v: Seq<String>, d: Seq<char>)
    requires
        forall|k: int| 0 <= k < v.len() ==> date_key((#[trigger] v[k])@) <= date_key(d),
    ensures
        later_count_in(v, d) == 0,
    decreases v.len(),
{
    if v.len() > 0 {
        lemma_later_count_in_zero(v.drop_last(), d);
    }
}

proof fn lemma_later_count_in_full(v: Seq<String>, d: Seq<char>)
    requires
        forall|k: int| 0 <= k < v.len() ==> date_key((#[trigger] v[k])@) > date_key(d),
    ensures
        later_count_in(v, d) == v.len(),
    decreases v.len(),
{
    if v.len() > 0 {
        lemma_later_count_in_full(v.drop_last(), d);
    }
}

proof fn lemma_later_count_in_remove(v: Seq<String>, i: int, d: Seq<char>)
    requires
        0 <= i < v.len(),
    ensures
        later_count_in(v.remove(i), d) == later_count_in(v, d) - (if date_key(v[i]@) > date_key(
            d,
        ) {
            1int
        } else {
            0int
        }),
    decreases v.len(),
{
    if i == v.len() - 1 {
        assert(v.remove(i) =~= v.drop_last());
    } else {
        lemma_later_count_in_remove(v.drop_last(), i, d);
        assert(v.remove(i).drop_last() =~= v.drop_last().remove(i));
        assert(v.remove(i).last() == v.last());
    }
}

proof fn lemma_later_count_in_push(v: Seq<String>, x: String, d: Seq<char>)
    ensures
        later_count_in(v.push(x), d) == later_count_in(v, d) + (if date_key(x@) > date_key(d) {
            1int
        } else {
            0int
        }),
{
    assert(v.push(x).drop_last() =~= v);
    assert(v.push(x).last() == x);
}

proof fn lemma_later_count_entries(
    entries: Seq<(String, Vec<String>)>,
    v: Seq<String>,
    d: Seq<char>,
)
    requires
        v.len() == entries.len(),
        forall|k: int| 0 <= k < v.len() ==> (#[trigger] v[k])@ == entries[k].0@,
    ensures
        later_count_in(v, d) == later_count(entries, d),
    decreases v.len(),
{
    if v.len() > 0 {
        lemma_later_count_entries(entries.drop_last(), v.drop_last(), d);
    }
}

/// Whether the text can stand inside a double-quoted TOML string with
/// only quote and backslash escapes: no control characters.
pub open spec fn toml_escapable(s: Seq<char>) -> bool {
    forall|k: int| 0 <= k < s.len() ==> (#[trigger] s[k]) as u32 >= 32
}

/// The text with TOML quote and backslash escapes applied.
pub open spec fn toml_escaped(s: Seq<char>) -> Seq<char>
    decreases s.len(),
{
    if s.len() == 0 {
        Seq::<char>::empty()
    } else {
        toml_escaped(s.drop_last()) + (if s.last() == '"' {
            seq!['\\', '"']
        } else if s.last() == '\\' {
            seq!['\\', '\\']
        } else {
            seq![s.last()]
        })
    }
}

/// The text as a double-quoted TOML string.
pub open spec fn toml_quoted(s: Seq<char>) -> Seq<char> {
    seq!['"'] + toml_escaped(s) + seq!['"']
}

/// A ledger entry's paths as a TOML array of strings.
pub open spec fn paths_toml_of(paths: Seq<String>) -> Seq<char>
    decreases paths.len(),
{
    if paths.len() == 0 {
        Seq::<char>::empty()
    } else if paths.len() == 1 {
        toml_quoted(paths[0]@)
    } else {
        paths_toml_of(paths.drop_last()) + ", "@ + toml_quoted(paths.last()@)
    }
}

/// A ledger as a TOML document: one `versions` table, each date mapped to
/// the array of its artifact paths.
pub open spec fn history_toml_of(entries: Seq<(String, Vec<String>)>) -> Seq<char>
    decreases entries.len(),
{
    if entries.len() == 0 {
        "[versions]\n"@
    } else {
        history_toml_of(entries.drop_last()) + toml_quoted(entries.last().0@) + " = ["@
            + paths_toml_of(entries.last().1@) + "]\n"@
    }
}

/// Whether every path of the ledger can stand in a TOML string.
pub open spec fn history_escapable(entries: Seq<(String, Vec<String>)>) -> bool {
    forall|i: int, k: int|
        0 <= i < entries.len() && 0 <= k < (#[trigger] entries[i]).1@.len() ==> toml_escapable(
            (#[trigger] entries[i].1@[k])@,
        )
}

/// Escapes a string for use inside a double-quoted TOML string and wraps
/// it in its quotes.
fn toml_quote(s: &String) -> (r: Option<String>)
    ensures
        r is Some <==> toml_escapable(s@),
        r is Some ==> r->0@ == toml_quoted(s@),
{
    let n: usize = s.as_str().unicode_len();
    let mut out = String::new();
    crate::strutil::push_char(&mut out, '"');
    let mut i: usize = 0;
    while i < n
        invariant
            i <= n,
            n == s@.len(),
            out@ =~= seq!['"'] + toml_escaped(s@.take(i as int)),
            forall|k: int| 0 <= k < i ==> (#[trigger] s@[k]) as u32 >= 32,
        decreases n - i,
    {
        let c = s.as_str().get_char(i);
        if (c as u32) < 32 {
            return None;
        }
        proof {
            assert(s@.take(i + 1).drop_last() =~= s@.take(i as int));
            assert(s@.take(i + 1).last() == s@[i as int]);
        }
        if c == '"' {
            crate::strutil::push_char(&mut out, '\\');
            crate::strutil::push_char(&mut out, '"');
        } else if c == '\\' {
            crate::strutil::push_char(&mut out, '\\');
            crate::strutil::push_char(&mut out, '\\');
        } else {
            crate::strutil::push_char(&mut out, c);
        }
        i = i + 1;
    }
    proof {
        assert(s@.take(n as int) =~= s@);
    }
    crate::strutil::push_char(&mut out, '"');
    Some(out)
}

/// An ISO date stands in a TOML string as it is: digits and dashes have
/// no escapes and are no control characters.
proof fn lemma_iso_date_escapable(s: Seq<char>)
    requires
        is_iso_date(s),
    ensures
        toml_escapable(s),
{
    assert forall|k: int| 0 <= k < s.len() implies (#[trigger] s[k]) as u32 >= 32 by {
        if k != 4 && k != 7 {
            assert(is_digit(s[k]));
        }
    }
}

/// Renders a ledger as the TOML document the mirror persists it as. Every
/// path must be free of control characters; the dates are, being ISO.
pub fn history_toml(history: &ChannelHistoryFile) -> (r: Option<String>)
    requires
        history.wf(),
    ensures
        r is Some <==> history_escapable(history.versions@),
        r is Some ==> r->0@ == history_toml_of(history.versions@),
{
    let mut out = String::from_str("[versions]\n");
    let entries = &history.versions;
    let mut i: usize = 0;
    while i < entries.len()
        invariant
            i <= entries@.len(),
            entries == &history.versions,
            history.wf(),
            out@ =~= history_toml_of(entries@.take(i as int)),
            forall|i2: int, k: int|
                0 <= i2 < i && 0 <= k < (#[trigger] entries@[i2]).1@.len() ==> toml_escapable(
                    (#[trigger] entries@[i2].1@[k])@,
                ),
        decreases entries@.len() - i,
    {
        proof {
            assert(entries@.take(i + 1).drop_last() =~= entries@.take(i as int));
            assert(entries@.take(i + 1).last() == entries@[i as int]);
            lemma_iso_date_escapable(entries@[i as int].0@);
        }
        let quoted_date = match toml_quote(&entries[i].0) {
            Some(q) => q,
            None => {
                proof {
                    assert(toml_escapable(entries@[i as int].0@));
                    assert(false);
                }
                return None;
            },
        };
        out.append(quoted_date.as_str());
        out.append(" = [");
        let paths = &entries[i].1;
        let mut j: usize = 0;
        while j < paths.len()
            invariant
                j <= paths@.len(),
                paths == &entries@[i as int].1,
                entries == &history.versions,
                i < entries@.len(),
                out@ =~= history_toml_of(entries@.take(i as int)) + toml_quoted(
                    entries@[i as int].0@,
                ) + " = ["@ + paths_toml_of(paths@.take(j as int)),
                forall|k: int| 0 <= k < j ==> toml_escapable((#[trigger] paths@[k])@),
            decreases paths@.len() - j,
        {
            proof {
                assert(paths@.take(j + 1).drop_last() =~= paths@.take(j as int));
                assert(paths@.take(j + 1).last() == paths@[j as int]);
            }
            let quoted = match toml_quote(&paths[j]) {
                Some(q) => q,
                None => {
                    proof {
                        assert(!toml_escapable(entries@[i as int].1@[j as int]@));
                        assert(!history_escapable(entries@));
                    }
                    return None;
                },
            };
            if j > 0 {
                out.append(", ");
            }
            out.append(quoted.as_str());
            j = j + 1;
        }
        out.append("]\n");
        proof {
            assert(paths@.take(paths@.len() as int) =~= paths@);
            assert(out@ =~= history_toml_of(entries@.take(i + 1)));
        }
        i = i + 1;
    }
    proof {
        assert(entries@.take(entries@.len() as int) =~= entries@);
        assert(history_escapable(entries@));
    }
    Some(out)
}

/// The most recent dates of a ledger: its dates in descending order,
/// truncated to the first `versions` many. The result holds exactly the
/// ledger dates with fewer than `versions` strictly later ledger dates.
pub fn latest_dates_from_channel_history(
    channel_history: &ChannelHistoryFile,
    versions: usize,
) -> (r: Vec<String>)
    requires
        channel_history.wf(),
    ensures
        r@.len() == if versions <= channel_history.versions@.len() {
            versions as int
        } else {
            channel_history.versions@.len() as int
        },
        forall|k: int|
            0 <= k < r@.len() ==> is_iso_date((#[trigger] r@[k])@) && channel_history.has_date(
                r@[k]@,
            ),
        forall|k1: int, k2: int|
            0 <= k1 < k2 < r@.len() ==> date_key(r@[k1]@) >= date_key(r@[k2]@),
        forall|k1: int, k2: int| 0 <= k1 < k2 < r@.len() ==> r@[k1]@ != r@[k2]@,
        forall|d: Seq<char>|
            channel_history.has_date(d) && !contains_view(r@, d) ==> forall|k: int|
                0 <= k < r@.len() ==> date_key((#[trigger] r@[k])@) >= date_key(d),
        versions >= channel_history.versions@.len() ==> forall|d: Seq<char>|
            channel_history.has_date(d) ==> contains_view(r@, d),
        forall|d: Seq<char>|
            contains_view(r@, d) <==> (channel_history.has_date(d) && later_count(
                channel_history.versions@,
                d,
            ) < versions),
{
    let n = channel_history.versions.len();
    let mut remaining: Vec<String> = Vec::new();
    let mut i: usize = 0;
    while i < n
        invariant
            i <= n,
            n == channel_history.versions@.len(),
            channel_history.wf(),
            remaining@.len() == i,
            forall|k: int|
                0 <= k < i ==> (#[trigger] remaining@[k])@ == channel_history.versions@[k].0@,
        decreases n - i,
    {
        remaining.push(channel_history.versions[i].0.clone());
        i = i + 1;
    }
    let ghost h = *channel_history;
    proof {
        assert forall|k: int| 0 <= k < remaining@.len() implies is_iso_date(
            (#[trigger] remaining@[k])@,
        ) && h.has_date(remaining@[k]@) by {
            assert(h.versions@[k].0@ == remaining@[k]@);
        }
        assert forall|d: Seq<char>| h.has_date(d) implies contains_view(remaining@, d) by {
            let k = choose|k: int| 0 <= k < h.versions@.len() && (#[trigger] h.versions@[k]).0@
                == d;
            assert(remaining@[k]@ == d);
        }
        assert forall|k1: int, k2: int|
            0 <= k1 < k2 < remaining@.len() implies remaining@[k1]@ != remaining@[k2]@ by {
            assert(h.versions@[k1].0@ != h.versions@[k2].0@);
        }
    }
    let mut result: Vec<String> = Vec::new();
    proof {
        assert forall|d2: Seq<char>| (#[trigger] later_count_in(remaining@, d2)) + later_count_in(
            result@,
            d2,
        ) == later_count(h.versions@, d2) by {
            lemma_later_count_entries(h.versions@, remaining@, d2);
        }
    }
    while result.len() < versions && remaining.len() > 0
        invariant
            channel_history.wf(),
            h == *channel_history,
            result@.len() + remaining@.len() == n,
            n == h.versions@.len(),
            result@.len() <= versions,
            forall|k: int|
                0 <= k < result@.len() ==> is_iso_date((#[trigger] result@[k])@) && h.has_date(
                    result@[k]@,
                ),
            forall|k: int|
                0 <= k < remaining@.len() ==> is_iso_date((#[trigger] remaining@[k])@)
                    && h.has_date(remaining@[k]@),
            forall|k1: int, k2: int|
                0 <= k1 < k2 < result@.len() ==> date_key(result@[k1]@) >= date_key(result@[k2]@),
            forall|k1: int, k2: int|
                0 <= k1 < result@.len() && 0 <= k2 < remaining@.len() ==> date_key(result@[k1]@)
                    >= date_key(remaining@[k2]@),
            forall|k1: int, k2: int| 0 <= k1 < k2 < result@.len() ==> result@[k1]@ != result@[k2]@,
            forall|k1: int, k2: int|
                0 <= k1 < k2 < remaining@.len() ==> remaining@[k1]@ != remaining@[k2]@,
            forall|k1: int, k2: int|
                0 <= k1 < result@.len() && 0 <= k2 < remaining@.len() ==> result@[k1]@
                    != remaining@[k2]@,
            forall|d: Seq<char>|
                h.has_date(d) ==> contains_view(result@, d) || contains_view(remaining@, d),
            forall|d2: Seq<char>| (#[trigger] later_count_in(remaining@, d2)) + later_count_in(
                result@,
                d2,
            ) == later_count(h.versions@, d2),
            forall|k: int|
                0 <= k < result@.len() ==> later_count(h.versions@, (#[trigger] result@[k])@)
                    <= k,
        decreases remaining@.len(),
    {
        let mut mi: usize = 0;
        let mut mk: u32 = match date_key_exec(&remaining[0]) {
            Some(k) => k,
            None => 0,
        };
        let mut t: usize = 1;
        while t < remaining.len()
            invariant
                1 <= t <= remaining@.len(),
                mi < t,
                forall|k: int| 0 <= k < remaining@.len() ==> is_iso_date((#[trigger] remaining@[k])@),
                mk == date_key(remaining@[mi as int]@),
                forall|k: int| 0 <= k < t ==> mk >= date_key((#[trigger] remaining@[k])@),
            decreases remaining@.len() - t,
        {
            let tk: u32 = match date_key_exec(&remaining[t]) {
                Some(k) => k,
                None => 0,
            };
            if tk > mk {
                mi = t;
                mk = tk;
            }
            t = t + 1;
        }
        let ghost before = remaining@;
        let ghost rbefore = result@;
        let picked = remaining.remove(mi);
        result.push(picked);
        proof {
            before.remove_ensures(mi as int);
            assert(result@.last()@ == before[mi as int]@);
            assert forall|k2: int| 0 <= k2 < remaining@.len() implies date_key(
                result@.last()@,
            ) >= date_key((#[trigger] remaining@[k2])@) by {
                if k2 < mi {
                    assert(remaining@[k2] == before[k2]);
                } else {
                    assert(remaining@[k2] == before[k2 + 1]);
                }
            }
            assert forall|k2: int| 0 <= k2 < remaining@.len() implies result@.last()@ != (
            #[trigger] remaining@[k2])@ by {
                if k2 < mi {
                    assert(remaining@[k2] == before[k2]);
                } else {
                    assert(remaining@[k2] == before[k2 + 1]);
                }
            }
            assert forall|d: Seq<char>| h.has_date(d) implies contains_view(result@, d)
                || contains_view(remaining@, d) by {
                if contains_view(rbefore, d) {
                    let k = choose|k: int| 0 <= k < rbefore.len() && (#[trigger] rbefore[k])@ == d;
                    assert(result@[k]@ == d);
                } else if contains_view(before, d) {
                    let k = choose|k: int| 0 <= k < before.len() && (#[trigger] before[k])@ == d;
                    if k == mi {
                        assert(result@.last()@ == d);
                    } else if k < mi {
                        assert(remaining@[k]@ == d);
                    } else {
                        assert(remaining@[k - 1]@ == d);
                    }
                }
            }
            assert forall|d2: Seq<char>| (#[trigger] later_count_in(remaining@, d2))
                + later_count_in(result@, d2) == later_count(h.versions@, d2) by {
                assert(later_count_in(before, d2) + later_count_in(rbefore, d2) == later_count(
                    h.versions@,
                    d2,
                ));
                lemma_later_count_in_remove(before, mi as int, d2);
                lemma_later_count_in_push(rbefore, before[mi as int], d2);
                assert(remaining@ == before.remove(mi as int));
                assert(result@ == rbefore.push(before[mi as int]));
            }
            assert forall|k: int| 0 <= k < result@.len() implies later_count(
                h.versions@,
                (#[trigger] result@[k])@,
            ) <= k by {
                if k < rbefore.len() {
                    assert(result@[k] == rbefore[k]);
                } else {
                    let d2 = before[mi as int]@;
                    assert(result@[k] == before[mi as int]);
                    lemma_later_count_in_zero(before, d2);
                    lemma_later_count_in_bounds(rbefore, d2);
                    assert(later_count_in(before, d2) + later_count_in(rbefore, d2)
                        == later_count(h.versions@, d2));
                }
            }
        }
    }
    proof {
        assert forall|d: Seq<char>|
            h.has_date(d) && !contains_view(result@, d) implies forall|k: int|
            0 <= k < result@.len() ==> date_key((#[trigger] result@[k])@) >= date_key(d) by {
            let k2 = choose|k: int| 0 <= k < remaining@.len() && (#[trigger] remaining@[k])@ == d;
            assert(contains_view(remaining@, d));
        }
        assert forall|d: Seq<char>| contains_view(result@, d) implies (h.has_date(d)
            && later_count(h.versions@, d) < versions) by {
            let k = choose|k: int| 0 <= k < result@.len() && (#[trigger] result@[k])@ == d;
            assert(later_count(h.versions@, result@[k]@) <= k);
        }
        assert forall|d: Seq<char>| h.has_date(d) && later_count(h.versions@, d)
            < versions implies contains_view(result@, d) by {
            if !contains_view(result@, d) {
                assert(contains_view(remaining@, d));
                let e = choose|e: int| 0 <= e < remaining@.len() && (#[trigger] remaining@[e])@
                    == d;
                assert(result@.len() == versions);
                assert forall|k: int| 0 <= k < result@.len() implies date_key(
                    (#[trigger] result@[k])@,
                ) > date_key(d) by {
                    assert(date_key(result@[k]@) >= date_key(remaining@[e]@));
                    if date_key(result@[k]@) == date_key(d) {
                        lemma_date_key_injective(result@[k]@, d);
                    }
                }
                lemma_later_count_in_full(result@, d);
                lemma_later_count_in_bounds(remaining@, d);
                assert(later_count_in(remaining@, d) + later_count_in(result@, d) == later_count(
                    h.versions@,
                    d,
                ));
            }
        }
    }
    result
}

} // verus!
