//! The text rules that creating and building a project apply: the package
//! name read from `Cargo.toml`, the static library name derived from it, the
//! package name written into the template manifest, and the IMSI read from
//! the project's JSON manifest.
use vstd::prelude::*;
use vstd::string::{StrSliceExecFns, StringExecFns};
use crate::text::{
    chars_of, contains, first_line_where, lines, matches_at, contains_in, next_line, quote_field,
    quote_field_range, replace_all, replace_str, starts_with, trim, trim_range, lemma_replace_char,
    law_trim_idempotent, lemma_first_index, lemma_first_index_props, law_replace_without_occurrence,
    strip_cr, first_index,
};

verus! {

/// The start of the `Cargo.toml` line that names the package.
pub const NAME_PREFIX: &'static str = "name = ";

/// What marks the line of the JSON manifest that holds the IMSI.
pub const IMSI_KEY: &'static str = "\"imsi\"";

/// The IMSI used when the JSON manifest gives none.
pub const DEFAULT_IMSI: &'static str = "000000000000000";

/// The package-name line of the project template.
pub const TEMPLATE_NAME_LINE: &'static str = "name = \"my_mre_app\"";

/// Lines that name the package.
pub open spec fn is_name_line() -> spec_fn(Seq<char>) -> bool {
    |line: Seq<char>| starts_with(line, NAME_PREFIX@)
}

/// Lines that hold the IMSI.
pub open spec fn is_imsi_line() -> spec_fn(Seq<char>) -> bool {
    |line: Seq<char>| contains(line, IMSI_KEY@)
}

/// The package name in `toml`: the first line that begins with
/// [`NAME_PREFIX`], and in it the text after its first `'"'` up to the next
/// one (or to the end of the line).
pub open spec fn package_name(toml: Seq<char>) -> Option<Seq<char>> {
    match first_line_where(lines(toml), is_name_line()) {
        Some(line) => quote_field(line, 1),
        None => None,
    }
}

/// The IMSI in `manifest`: on the first line that contains [`IMSI_KEY`], the
/// fourth piece when the line is split at each `'"'`; [`DEFAULT_IMSI`] when
/// there is no such line or piece; trimmed of white space.
pub open spec fn manifest_imsi(manifest: Seq<char>) -> Seq<char> {
    let raw = match first_line_where(lines(manifest), is_imsi_line()) {
        Some(line) => match quote_field(line, 3) {
            Some(field) => field,
            None => DEFAULT_IMSI@,
        },
        None => DEFAULT_IMSI@,
    };
    trim(raw)
}

/// The first line of `v` on which `key` stands where `anchored` asks: at its
/// start when `anchored`, anywhere otherwise. Gives where the line begins and
/// ends.
fn find_line(v: &[char], key: &[char], anchored: bool) -> (r: Option<(usize, usize)>)
    ensures
        ({
            let p = if anchored {
                |line: Seq<char>| starts_with(line, key@)
            } else {
                |line: Seq<char>| contains(line, key@)
            };
            match r {
                Some((a, b)) => a <= b <= v@.len() && first_line_where(lines(v@), p) == Some(
                    v@.subrange(a as int, b as int),
                ),
                None => first_line_where(lines(v@), p) is None,
            }
        }),
{
    let ghost p = if anchored {
        |line: Seq<char>| starts_with(line, key@)
    } else {
        |line: Seq<char>| contains(line, key@)
    };
    let n = v.len();
    let mut start: usize = 0;
    assert(v@.skip(0) =~= v@);
    while start < n
        invariant
            n == v@.len(),
            start <= n,
            p == (if anchored {
                |line: Seq<char>| starts_with(line, key@)
            } else {
                |line: Seq<char>| contains(line, key@)
            }),
            first_line_where(lines(v@), p) == first_line_where(lines(v@.skip(start as int)), p),
        decreases n - start,
    {
        let (end, next) = next_line(v, start);
        let ghost line = v@.subrange(start as int, end as int);
        let ghost rest = lines(v@.skip(next as int));
        let hit = if anchored {
            let m = matches_at(v, start, end, key);
            assert(m == starts_with(line, key@)) by {
                if start + key@.len() <= end {
                    assert(line.take(key@.len() as int) =~= v@.subrange(
                        start as int,
                        start + key@.len(),
                    ));
                }
            }
            m
        } else {
            contains_in(v, start, end, key)
        };
        if hit {
            return Some((start, end));
        }
        assert((seq![line] + rest).drop_first() =~= rest);
        start = next;
    }
    assert(v@.skip(n as int) =~= Seq::<char>::empty());
    None
}

/// The package name that `cargo_toml` gives, if it names one.
pub fn package_name_of(cargo_toml: &str) -> (r: Option<String>)
    ensures
        match r {
            Some(name) => package_name(cargo_toml@) == Some(name@),
            None => package_name(cargo_toml@) is None,
        },
{
    let v = chars_of(cargo_toml);
    let key = chars_of(NAME_PREFIX);
    match find_line(v.as_slice(), key.as_slice(), true) {
        None => None,
        Some((a, b)) => match quote_field_range(v.as_slice(), a, b, 1) {
            None => None,
            Some((fa, fb)) => Some(String::from_str(cargo_toml.substring_char(fa, fb))),
        },
    }
}

/// The IMSI that `manifest` gives, or [`DEFAULT_IMSI`].
pub fn manifest_imsi_of(manifest: &str) -> (imsi: String)
    ensures
        imsi@ == manifest_imsi(manifest@),
{
    let v = chars_of(manifest);
    let key = chars_of(IMSI_KEY);
    if let Some((a, b)) = find_line(v.as_slice(), key.as_slice(), false) {
        if let Some((fa, fb)) = quote_field_range(v.as_slice(), a, b, 3) {
            let (ta, tb) = trim_range(v.as_slice(), fa, fb);
            return String::from_str(manifest.substring_char(ta, tb));
        }
    }
    let d = chars_of(DEFAULT_IMSI);
    let (ta, tb) = trim_range(d.as_slice(), 0, d.len());
    assert(d@.subrange(0, d@.len() as int) =~= d@);
    String::from_str(DEFAULT_IMSI.substring_char(ta, tb))
}

/// The name of the static library that Cargo builds for `package`: each
/// `'-'` becomes `'_'`.
pub fn library_name(package: &str) -> (name: String)
    ensures
        name@ == replace_all(package@, "-"@, "_"@),
        name@ == package@.map_values(
            |c: char|
                if c == '-' {
                    '_'
                } else {
                    c
                },
        ),
{
    proof {
        reveal_strlit("-");
        reveal_strlit("_");
        assert("-"@ =~= seq!['-']);
        assert("_"@ =~= seq!['_']);
        lemma_replace_char(package@, '-', '_');
    }
    replace_str(package, "-", "_")
}

/// The template manifest `template` with its package-name line naming
/// `package`.
pub fn named_manifest(template: &str, package: &str) -> (toml: String)
    ensures
        toml@ == replace_all(
            template@,
            TEMPLATE_NAME_LINE@,
            "name = \""@ + package@ + "\""@,
        ),
{
    proof {
        reveal_strlit("name = \"my_mre_app\"");
    }
    let mut line = String::from_str("name = \"");
    line.append(package);
    line.append("\"");
    replace_str(template, TEMPLATE_NAME_LINE, line.as_str())
}

/// The IMSI read from a manifest has no white space left at either end:
/// trimming it again changes nothing.
pub proof fn law_manifest_imsi_is_trimmed(manifest: Seq<char>)
    ensures
        trim(manifest_imsi(manifest)) == manifest_imsi(manifest),
{
    let raw = match first_line_where(lines(manifest), is_imsi_line()) {
        Some(line) => match quote_field(line, 3) {
            Some(field) => field,
            None => DEFAULT_IMSI@,
        },
        None => DEFAULT_IMSI@,
    };
    law_trim_idempotent(raw);
}

/// A manifest whose first line names the package `p` (in quotes, after
/// [`NAME_PREFIX`]) gives `p` as the package name, whatever follows the
/// closing quote.
pub proof fn law_package_name_of_name_line(p: Seq<char>, rest: Seq<char>)
    requires
        forall|i: int| 0 <= i < p.len() ==> p[i] != '"' && p[i] != '\n',
    ensures
        package_name("name = \""@ + p + "\""@ + rest) == Some(p),
{
    reveal_strlit("name = \"");
    reveal_strlit("\"");
    reveal_strlit("name = ");
    let n = "name = \""@;
    let head = n + p + "\""@;
    let toml = head + rest;
    let hl = head.len() as int;
    assert(hl == 9 + p.len());
    assert(forall|j: int| 0 <= j < hl ==> head[j] != '\n');
    assert(head[hl - 1] == '"');
    lemma_first_index_props(rest, '\n');
    let k = hl + first_index(rest, '\n');
    assert forall|j: int| 0 <= j < k implies toml[j] != '\n' by {
        if j < hl {
            assert(toml[j] == head[j]);
        } else {
            assert(toml[j] == rest[j - hl]);
        }
    }
    if k < toml.len() {
        assert(toml[k] == rest[k - hl]);
    }
    lemma_first_index(toml, '\n', k);
    let line = if k < toml.len() {
        strip_cr(toml.take(k))
    } else {
        toml
    };
    assert(lines(toml)[0] == line);
    assert(line.len() >= hl);
    assert(forall|j: int| 0 <= j < hl ==> line[j] == head[j]);
    assert(line.take(7) =~= "name = "@);
    assert(starts_with(line, NAME_PREFIX@));
    assert(first_line_where(lines(toml), is_name_line()) == Some(line));
    lemma_first_index(line, '"', 7);
    let tail = line.skip(8);
    assert forall|j: int| 0 <= j < p.len() implies tail[j] == p[j] && tail[j] != '"' by {
        assert(tail[j] == line[8 + j]);
        assert(head[8 + j] == p[j]);
    }
    assert(tail[p.len() as int] == line[hl - 1]);
    lemma_first_index(tail, '"', p.len() as int);
    assert(tail.take(p.len() as int) =~= p);
    assert(quote_field(tail, 0) == Some(p));
    assert(quote_field(line, 1) == quote_field(tail, 0));
    assert(package_name(toml) == quote_field(line, 1));
}

/// The manifest that [`named_manifest`] writes for the package `p` from a
/// template whose first line is [`TEMPLATE_NAME_LINE`] (and which names the
/// template package nowhere else) gives `p` back as the package name.
pub proof fn law_named_manifest_reads_back(p: Seq<char>, rest: Seq<char>)
    requires
        forall|i: int| 0 <= i < p.len() ==> p[i] != '"' && p[i] != '\n',
        !contains(rest, TEMPLATE_NAME_LINE@),
    ensures
        package_name(
            replace_all(
                TEMPLATE_NAME_LINE@ + rest,
                TEMPLATE_NAME_LINE@,
                "name = \""@ + p + "\""@,
            ),
        ) == Some(p),
{
    reveal_strlit("name = \"my_mre_app\"");
    let pat = TEMPLATE_NAME_LINE@;
    let rep = "name = \""@ + p + "\""@;
    let s = pat + rest;
    assert(s.take(pat.len() as int) =~= pat);
    assert(s.skip(pat.len() as int) =~= rest);
    law_replace_without_occurrence(rest, pat, rep);
    assert(replace_all(s, pat, rep) == rep + rest);
    law_package_name_of_name_line(p, rest);
}

} // verus!
