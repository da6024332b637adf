//! The import processor's decisions. For each `import`, it finds the file to load, tells
//! duplicate imports apart (a file imported again into the same namespace is dropped), keeps
//! track of the namespace being processed, and reports what it finds. Reading and parsing the
//! files is left to the caller, which hands the results back.

use vstd::prelude::*;

use crate::ast::{spec_tok_pos, tok_pos, AstPos, ImportType, Statement};
use crate::codegen::str_equal;
use crate::package::opt_view;
use crate::diagnostics::DiagnosticKind;
use crate::list::List;
use crate::tokens::Token;
use vstd::string::{StrSliceExecFns, StringExecFns};

verus! {

// ---------------------------------------------------------------------------------------------
// Paths.
// ---------------------------------------------------------------------------------------------

/// A character that separates the components of a path on some platform: `/` everywhere, and
/// also `\` on Windows.
pub open spec fn is_separator_char(c: char) -> bool {
    c == '/' || c == '\\'
}

/// The text has no `:` (which on Windows can start a drive prefix).
pub open spec fn no_colon(p: Seq<char>) -> bool {
    forall|i: int| 0 <= i < p.len() ==> p[i] != ':'
}

/// A directory path that a relative path can be joined to on every platform with a separator
/// in between: not empty, no `:`, not ending in a separator, and not starting with two (which
/// on Windows starts a network or device prefix).
pub open spec fn joinable_base(p: Seq<char>) -> bool {
    &&& p.len() > 0
    &&& no_colon(p)
    &&& !is_separator_char(p.last())
    &&& !(p.len() >= 2 && is_separator_char(p[0]) && is_separator_char(p[1]))
}

/// A path that is relative on every platform: no `:`, and not starting with a separator.
pub open spec fn plainly_relative(p: Seq<char>) -> bool {
    &&& no_colon(p)
    &&& (p.len() == 0 || !is_separator_char(p[0]))
}

/// A path whose last component is plain text without a `.` on every platform: not empty, no
/// `:`, not ending in a separator, not starting with two separators, and each `.` followed
/// later by a `/`.
pub open spec fn simple_name(p: Seq<char>) -> bool {
    &&& joinable_base(p)
    &&& forall|i: int| 0 <= i < p.len() && p[i] == '.' ==> exists|j: int| i < j < p.len() && #[trigger] p[j] == '/'
}

/// What follows the last `/` of `p` (all of `p` where it has none).
pub open spec fn last_segment(p: Seq<char>) -> Seq<char>
    decreases p.len(),
{
    if p.len() == 0 {
        p
    } else if p.last() == '/' {
        Seq::empty()
    } else {
        last_segment(p.drop_last()).push(p.last())
    }
}

/// A path that reads the same on every platform and ends in a file name: no `\` or `:`, not
/// starting with two `/`, and ending in a name that is not `.` or `..`.
pub open spec fn plain_path(p: Seq<char>) -> bool {
    &&& p.len() > 0
    &&& forall|i: int| 0 <= i < p.len() ==> p[i] != '\\' && p[i] != ':'
    &&& !(p.len() >= 2 && p[0] == '/' && p[1] == '/')
    &&& last_segment(p).len() > 0
    &&& last_segment(p) != "."@
    &&& last_segment(p) != ".."@
}

/// `p` with the extension of its file name replaced by `ext`: the file name's stem, a `.` and
/// `ext` in place of the file name.
pub open spec fn with_extension_text(p: Seq<char>, ext: Seq<char>) -> Seq<char> {
    p.subrange(0, p.len() - last_segment(p).len()) + crate::package::name_stem(last_segment(p)) + seq!['.'] + ext
}

/// The `/`-separated parts of `s`, as `str::split('/')` gives them: empty parts included, and
/// one empty part for an empty `s`.
pub open spec fn slash_parts(s: Seq<char>) -> Seq<Seq<char>>
    decreases s.len(),
{
    if s.len() == 0 {
        seq![Seq::empty()]
    } else if s.last() == '/' {
        slash_parts(s.drop_last()).push(Seq::empty())
    } else {
        let r = slash_parts(s.drop_last());
        r.update(r.len() - 1, r.last().push(s.last()))
    }
}

proof fn lemma_slash_parts_nonempty(s: Seq<char>)
    ensures
        slash_parts(s).len() > 0,
    decreases s.len(),
{
    if s.len() > 0 {
        lemma_slash_parts_nonempty(s.drop_last());
    }
}

/// Splits an import path at each `/`.
pub fn split_parts(lexeme: &str) -> (res: Vec<String>)
    ensures
        key_view(res@) == slash_parts(lexeme@),
{
    let mut parts: Vec<String> = Vec::new();
    parts.push(String::new());
    let n = lexeme.unicode_len();
    let mut i: usize = 0;
    proof {
        assert(lexeme@.take(0) =~= Seq::<char>::empty());
        assert(key_view(parts@) =~= seq![Seq::<char>::empty()]);
    }
    while i < n
        invariant
            n == lexeme@.len(),
            i <= n,
            key_view(parts@) == slash_parts(lexeme@.take(i as int)),
        decreases n - i,
    {
        let ch = lexeme.get_char(i);
        let ghost before = parts@;
        proof {
            assert(lexeme@.take(i as int + 1).drop_last() =~= lexeme@.take(i as int));
            assert(lexeme@.take(i as int + 1).last() == ch);
            lemma_slash_parts_nonempty(lexeme@.take(i as int));
        }
        if ch == '/' {
            parts.push(String::new());
            proof {
                assert(key_view(parts@) =~= key_view(before).push(Seq::empty()));
            }
        } else {
            let last = parts.len() - 1;
            let mut text = parts.remove(last);
            crate::irgen::push_char(&mut text, ch);
            parts.push(text);
            proof {
                assert(parts@ == before.update(last as int, text));
                assert(key_view(parts@) =~= key_view(before).update(
                    last as int,
                    key_view(before)[last as int].push(ch),
                ));
            }
        }
        i = i + 1;
    }
    proof {
        assert(lexeme@.take(n as int) =~= lexeme@);
    }
    parts
}

/// Parts with no separator and no `:`, which read the same on every platform.
pub open spec fn parts_ok(parts: Seq<Seq<char>>) -> bool {
    forall|i: int, j: int|
        0 <= i < parts.len() && 0 <= j < parts[i].len() ==> !is_separator_char(#[trigger] parts[i][j]) && parts[i][j]
            != ':'
}

/// `PathBuf::push` of a relative part: the part alone onto an empty path, right after a
/// trailing separator, and after `sep` otherwise.
pub open spec fn pushed(buf: Seq<char>, part: Seq<char>, sep: char) -> Seq<char> {
    if buf.len() == 0 {
        part
    } else if is_separator_char(buf.last()) {
        buf + part
    } else {
        buf + seq![sep] + part
    }
}

/// The path that pushing each of `parts` in turn onto an empty path makes, with `sep` as the
/// separator.
pub open spec fn collected(parts: Seq<Seq<char>>, sep: char) -> Seq<char>
    decreases parts.len(),
{
    if parts.len() == 0 {
        Seq::empty()
    } else {
        pushed(collected(parts.drop_last(), sep), parts.last(), sep)
    }
}

/// Collects `parts` into a `PathBuf` (`FromIterator`, which pushes each in turn) and returns it
/// as text. Claimed: for parts with no separator and no `:`, the path pushed together with `/`
/// or with `\` as the separator (the platform's; which one is not stated).
#[verifier::external_body]
fn path_from_parts(parts: &Vec<String>) -> (res: String)
    ensures
        parts_ok(key_view(parts@)) ==> res@ == collected(key_view(parts@), '/') || res@ == collected(
            key_view(parts@),
            '\\',
        ),
{
    parts.iter().collect::<std::path::PathBuf>().to_string_lossy().into_owned()
}

proof fn lemma_collected_relative(parts: Seq<Seq<char>>, sep: char)
    requires
        parts_ok(parts),
        is_separator_char(sep),
    ensures
        plainly_relative(collected(parts, sep)),
    decreases parts.len(),
{
    if parts.len() > 0 {
        let rest = parts.drop_last();
        assert(parts_ok(rest)) by {
            assert forall|i: int, j: int| 0 <= i < rest.len() && 0 <= j < rest[i].len() implies !is_separator_char(
                #[trigger] rest[i][j],
            ) && rest[i][j] != ':' by {
                assert(rest[i] == parts[i]);
            }
        }
        lemma_collected_relative(rest, sep);
        let b = collected(rest, sep);
        let p = parts.last();
        assert(p == parts[parts.len() - 1]);
        let c = collected(parts, sep);
        assert forall|k: int| 0 <= k < c.len() implies c[k] != ':' by {
            if b.len() == 0 {
                assert(c[k] == p[k]);
            } else if k < b.len() {
                assert(c[k] == b[k]);
            } else if is_separator_char(b.last()) {
                assert(c[k] == p[k - b.len()]);
            } else if k > b.len() {
                assert(c[k] == p[k - b.len() - 1]);
            }
        }
        if b.len() == 0 && p.len() > 0 {
            assert(c[0] == p[0]);
        } else if b.len() > 0 {
            assert(c[0] == b[0]);
        }
    }
}

/// The parts that name something: not empty and not `.`.
pub open spec fn named_parts(parts: Seq<Seq<char>>) -> Seq<Seq<char>>
    decreases parts.len(),
{
    if parts.len() == 0 {
        Seq::empty()
    } else if parts.last().len() == 0 || parts.last() == "."@ {
        named_parts(parts.drop_last())
    } else {
        named_parts(parts.drop_last()).push(parts.last())
    }
}

/// The first part that is not empty, if there is one.
pub open spec fn first_nonempty(parts: Seq<Seq<char>>) -> Option<Seq<char>>
    decreases parts.len(),
{
    if parts.len() == 0 {
        None
    } else if parts[0].len() > 0 {
        Some(parts[0])
    } else {
        first_nonempty(parts.drop_first())
    }
}

/// The components of the relative path made of `parts`, as `Path::components` documents them:
/// empty parts are dropped, and so is `.` except at the start.
pub open spec fn relative_components(parts: Seq<Seq<char>>) -> Seq<Seq<char>> {
    if first_nonempty(parts) == Some("."@) {
        seq!["."@] + named_parts(parts)
    } else {
        named_parts(parts)
    }
}

/// The components of the path made by joining the relative path of `parts` to a path with the
/// components `base`.
pub open spec fn joined_components(base: Seq<Seq<char>>, parts: Seq<Seq<char>>) -> Seq<Seq<char>> {
    if base.len() == 0 {
        relative_components(parts)
    } else {
        base + named_parts(parts)
    }
}

/// The components after `Path::with_extension(..., "skye")`: the last component, where it is a
/// name, becomes its stem followed by `.skye`.
pub open spec fn with_skye_extension(k: Seq<Seq<char>>) -> Seq<Seq<char>> {
    if k.len() > 0 && k.last() != ".."@ && k.last() != "."@ {
        k.drop_last().push(crate::package::name_stem(k.last()) + ".skye"@)
    } else {
        k
    }
}

/// The file name of the relative path of `parts`, as `Path::file_name` documents it: its last
/// component, unless there is none, or it is `.` or `..`.
pub open spec fn parts_file_name(parts: Seq<Seq<char>>) -> Option<Seq<char>> {
    let c = relative_components(parts);
    if c.len() == 0 || c.last() == "."@ || c.last() == ".."@ {
        None
    } else {
        Some(c.last())
    }
}

/// The extension of the relative path of `parts`: that of its file name.
pub open spec fn parts_extension(parts: Seq<Seq<char>>) -> Option<Seq<char>> {
    match parts_file_name(parts) {
        Some(n) => crate::package::name_extension(n),
        None => None,
    }
}

/// A copy of a list of components, as `String`s.
fn strings_of(k: &Vec<String>) -> (res: Vec<String>)
    ensures
        key_view(res@) == key_view(k@),
{
    copy_key(k)
}

fn push_named(res: &mut Vec<String>, parts: &Vec<String>)
    ensures
        key_view(final(res)@) == key_view(old(res)@) + named_parts(key_view(parts@)),
{
    let mut i: usize = 0;
    while i < parts.len()
        invariant
            i <= parts.len(),
            key_view(res@) == key_view(old(res)@) + named_parts(key_view(parts@).take(i as int)),
        decreases parts.len() - i,
    {
        let ghost before = res@;
        let ghost pv = key_view(parts@);
        proof {
            assert(pv.take(i as int + 1).drop_last() =~= pv.take(i as int));
            assert(pv.take(i as int + 1).last() == pv[i as int]);
            reveal_strlit(".");
        }
        if parts[i].as_str().unicode_len() > 0 && !str_equal(parts[i].as_str(), ".") {
            res.push(String::from_str(parts[i].as_str()));
            proof {
                assert(key_view(res@) =~= key_view(before).push(pv[i as int]));
            }
        }
        i = i + 1;
    }
    proof {
        assert(key_view(parts@).take(parts@.len() as int) =~= key_view(parts@));
    }
}

proof fn lemma_first_nonempty(parts: Seq<Seq<char>>, i: int)
    requires
        0 <= i < parts.len(),
        forall|j: int| 0 <= j < i ==> parts[j].len() == 0,
    ensures
        first_nonempty(parts) == first_nonempty(parts.subrange(i, parts.len() as int)),
    decreases i,
{
    if i > 0 {
        assert(parts[0].len() == 0);
        let rest = parts.drop_first();
        assert forall|j: int| 0 <= j < i - 1 implies rest[j].len() == 0 by {
            assert(rest[j] == parts[j + 1]);
        }
        lemma_first_nonempty(rest, i - 1);
        assert(rest.subrange(i - 1, rest.len() as int) =~= parts.subrange(i, parts.len() as int));
    } else {
        assert(parts.subrange(0, parts.len() as int) =~= parts);
    }
}

/// The components of the relative path of `parts`.
fn relative_key(parts: &Vec<String>) -> (res: Vec<String>)
    ensures
        key_view(res@) == relative_components(key_view(parts@)),
{
    let ghost pv = key_view(parts@);
    let mut i: usize = 0;
    while i < parts.len() && parts[i].as_str().unicode_len() == 0
        invariant
            i <= parts.len(),
            pv == key_view(parts@),
            forall|j: int| 0 <= j < i ==> pv[j].len() == 0,
        decreases parts.len() - i,
    {
        i = i + 1;
    }
    let mut res: Vec<String> = Vec::new();
    proof {
        reveal_strlit(".");
    }
    if i < parts.len() && str_equal(parts[i].as_str(), ".") {
        proof {
            lemma_first_nonempty(pv, i as int);
            assert(pv.subrange(i as int, pv.len() as int)[0] == pv[i as int]);
        }
        res.push(String::from_str("."));
    } else {
        proof {
            if i < parts.len() {
                lemma_first_nonempty(pv, i as int);
                assert(pv.subrange(i as int, pv.len() as int)[0] == pv[i as int]);
            } else {
                lemma_no_nonempty(pv);
            }
        }
    }
    proof {
        assert(key_view(res@) =~= if first_nonempty(pv) == Some("."@) { seq!["."@] } else { Seq::empty() });
    }
    push_named(&mut res, parts);
    res
}

proof fn lemma_no_nonempty(parts: Seq<Seq<char>>)
    requires
        forall|j: int| 0 <= j < parts.len() ==> parts[j].len() == 0,
    ensures
        first_nonempty(parts) is None,
    decreases parts.len(),
{
    if parts.len() > 0 {
        let rest = parts.drop_first();
        assert forall|j: int| 0 <= j < rest.len() implies rest[j].len() == 0 by {
            assert(rest[j] == parts[j + 1]);
        }
        lemma_no_nonempty(rest);
    }
}

/// The components of the path joining the relative path of `parts` to a path with the
/// components `base`.
fn joined_key(base: &Vec<String>, parts: &Vec<String>) -> (res: Vec<String>)
    ensures
        key_view(res@) == joined_components(key_view(base@), key_view(parts@)),
{
    if base.len() == 0 {
        relative_key(parts)
    } else {
        let mut res = strings_of(base);
        push_named(&mut res, parts);
        res
    }
}

/// The last of `k` with its stem followed by `.skye`, where it is a name.
fn key_with_skye_extension(k: Vec<String>) -> (res: Vec<String>)
    ensures
        k@.len() == 0 || crate::package::plain_file_name(k@.last()@) || k@.last()@ == ".."@ ==> key_view(res@)
            == with_skye_extension(key_view(k@)),
{
    let mut k = k;
    proof {
        reveal_strlit(".");
        reveal_strlit("..");
        reveal_strlit(".skye");
    }
    if k.len() > 0 && !str_equal(k[k.len() - 1].as_str(), "..") && !str_equal(k[k.len() - 1].as_str(), ".") {
        let ghost before = k@;
        let last = k.pop().unwrap();
        proof {
            assert(last == before.last());
        }
        match crate::package::entry_stem(last.as_str()) {
            Some(stem) => {
                let mut stem = stem;
                let ghost bare = stem@;
                stem.append(".skye");
                let ghost dropped = k@;
                k.push(stem);
                proof {
                    assert(dropped =~= before.drop_last());
                    assert(k@ == dropped.push(stem));
                    assert(stem@ == bare + ".skye"@);
                    if crate::package::plain_file_name(before.last()@) {
                        assert(bare == crate::package::name_stem(before.last()@));
                        assert(key_view(before).last() == before.last()@);
                        assert(key_view(k@) =~= key_view(before).drop_last().push(
                            crate::package::name_stem(key_view(before).last()) + ".skye"@,
                        ));
                    }
                }
            },
            None => {
                k.push(last);
                proof {
                    assert(k@ =~= before);
                }
            },
        }
    }
    k
}

/// The file name of the relative path of `parts`.
fn file_name_of_parts(parts: &Vec<String>) -> (res: Option<String>)
    ensures
        opt_view(res) == parts_file_name(key_view(parts@)),
{
    let c = relative_key(parts);
    proof {
        reveal_strlit(".");
        reveal_strlit("..");
    }
    if c.len() == 0 || str_equal(c[c.len() - 1].as_str(), ".") || str_equal(c[c.len() - 1].as_str(), "..") {
        None
    } else {
        Some(String::from_str(c[c.len() - 1].as_str()))
    }
}

/// Calls `Path::is_relative` on `path`. Claimed: a path with no `:` that does not start with a
/// separator is relative. Nothing is claimed of the others: whether `/x` is relative differs
/// between platforms (it is on Windows, which wants a prefix such as `C:`).
#[verifier::external_body]
fn path_is_relative(path: &str) -> (res: bool)
    ensures
        plainly_relative(path@) ==> res,
{
    std::path::Path::new(path).is_relative()
}

/// Calls `Path::join`: `rest` pushed onto `base`. Claimed: a relative `rest` is appended to a
/// joinable `base` after one separator of the platform (which one is not stated).
#[verifier::external_body]
fn path_join(base: &str, rest: &str) -> (res: String)
    ensures
        joinable_base(base@) && plainly_relative(rest@) ==> is_separator_char(res@[base@.len() as int])
            && res@ == base@ + seq![res@[base@.len() as int]] + rest@,
{
    std::path::Path::new(base).join(rest).to_string_lossy().into_owned()
}

/// Calls `Path::with_extension`: `path` with the extension of its last component replaced by
/// `extension`. It panics when `extension` holds a separator, which `requires` leaves out.
/// Claimed, for a non-empty `extension`: where the last component has no `.`, the result is
/// `path`, a `.` and `extension`; for a path that reads the same on every platform, the file
/// name's stem, a `.` and `extension` take the place of the file name.
#[verifier::external_body]
pub(crate) fn path_with_extension(path: &str, extension: &str) -> (res: String)
    requires
        forall|i: int| 0 <= i < extension@.len() ==> !is_separator_char(#[trigger] extension@[i]),
    ensures
        simple_name(path@) && extension@.len() > 0 ==> res@ == path@ + seq!['.'] + extension@,
        plain_path(path@) && extension@.len() > 0 ==> res@ == with_extension_text(path@, extension@),
{
    std::path::Path::new(path).with_extension(extension).to_string_lossy().into_owned()
}

/// Calls `Path::components` on `path` and returns each component as text. Nothing is claimed
/// of the result: how a path splits into components depends on the platform's rules for paths.
/// Two paths with the same components are the same path to `Path`'s `==`.
#[verifier::external_body]
pub(crate) fn path_components(path: &str) -> Vec<String> {
    std::path::Path::new(path).components().map(|c| c.as_os_str().to_string_lossy().into_owned()).collect()
}

/// The components of a path, as text.
pub open spec fn key_view(k: Seq<String>) -> Seq<Seq<char>> {
    k.map_values(|c: String| c@)
}

/// What holds of the places an import's path `lexeme` stands for, with the compiler's files in
/// `skye_path` (whose components are `skye_key`) and the file being compiled in `source` (with
/// the components `source_key`):
/// - the component lists are those of the plain path, of the library path (`skye_path`, `lib`,
///   the plain path), of the library path with the extension `skye`, and of the path next to
///   the source, made from the `/`-separated parts of `lexeme`;
/// - for parts with no separator and no `:`: the plain path is the parts pushed together, it is
///   relative, its extension is that of its file name, the library path and the path next to
///   the source are the directories, a separator, and the plain path, and the library path
///   with the extension `skye` is the library path and `.skye` where its last component has no
///   `.`.
pub open spec fn paths_made(
    res: ImportPaths,
    lexeme: Seq<char>,
    skye_path: Seq<char>,
    source: Option<Seq<char>>,
    skye_key: Seq<Seq<char>>,
    source_key: Option<Seq<Seq<char>>>,
) -> bool {
    let parts = slash_parts(lexeme);
    let lib_key = skye_key.push("lib"@) + named_parts(parts);
    &&& (res.in_source is Some <==> source is Some)
    &&& (res.in_source_key is Some <==> source is Some)
    &&& key_view(res.plain_key@) == relative_components(parts)
    &&& key_view(res.in_lib_key@) == lib_key
    &&& (parts_ok(parts) ==> key_view(res.in_lib_as_skye_key@) == with_skye_extension(lib_key))
    &&& match (res.in_source_key, source_key) {
        (Some(k), Some(sk)) => key_view(k@) == joined_components(sk, parts),
        _ => true,
    }
    &&& parts_ok(parts) ==> (res.plain@ == collected(parts, '/') || res.plain@ == collected(parts, '\\'))
    &&& parts_ok(parts) ==> res.relative
    &&& parts_ok(parts) ==> opt_view(res.extension) == parts_extension(parts)
    &&& parts_ok(parts) && joinable_base(skye_path) ==> exists|s1: char, s2: char|
        is_separator_char(s1) && is_separator_char(s2) && res.in_lib@ == skye_path + seq![s1] + "lib"@ + seq![s2]
            + res.plain@
    &&& simple_name(res.in_lib@) ==> res.in_lib_as_skye@ == res.in_lib@ + ".skye"@
    &&& match source {
        Some(dir) => parts_ok(parts) && joinable_base(dir) ==> exists|sep: char|
            is_separator_char(sep) && res.in_source->0@ == dir + seq![sep] + res.plain@,
        None => true,
    }
}

proof fn lemma_named_parts_ok(parts: Seq<Seq<char>>)
    requires
        parts_ok(parts),
    ensures
        forall|k: int| 0 <= k < named_parts(parts).len() ==> crate::package::plain_file_name(
            #[trigger] named_parts(parts)[k],
        ) || named_parts(parts)[k] == ".."@,
    decreases parts.len(),
{
    reveal_strlit(".");
    reveal_strlit("..");
    if parts.len() > 0 {
        let rest = parts.drop_last();
        assert(parts_ok(rest)) by {
            assert forall|i: int, j: int| 0 <= i < rest.len() && 0 <= j < rest[i].len() implies !is_separator_char(
                #[trigger] rest[i][j],
            ) && rest[i][j] != ':' by {
                assert(rest[i] == parts[i]);
            }
        }
        lemma_named_parts_ok(rest);
        let p = parts.last();
        assert(p == parts[parts.len() - 1]);
        let n = named_parts(parts);
        assert forall|k: int| 0 <= k < n.len() implies crate::package::plain_file_name(#[trigger] n[k]) || n[k]
            == ".."@ by {
            if k < named_parts(rest).len() {
                assert(n[k] == named_parts(rest)[k]);
            } else {
                assert(n[k] == p);
                assert forall|j: int| 0 <= j < p.len() implies p[j] != '/' && p[j] != '\\' && p[j] != ':' by {
                    assert(parts[parts.len() - 1][j] == p[j]);
                }
            }
        }
    }
}

/// The places the path `lexeme` of an import may stand for, with the compiler's files in
/// `skye_path` (with the components `skye_key`) and the file being compiled in `source_path`
/// (with the components `source_key`).
pub fn import_paths(
    lexeme: &str,
    skye_path: &str,
    source_path: &Option<String>,
    skye_key: &Vec<String>,
    source_key: &Option<Vec<String>>,
) -> (res: ImportPaths)
    ensures
        paths_made(
            res,
            lexeme@,
            skye_path@,
            opt_view(*source_path),
            key_view(skye_key@),
            match source_key {
                Some(k) => Some(key_view(k@)),
                None => None,
            },
        ),
{
    proof {
        reveal_strlit("lib");
        reveal_strlit("skye");
        reveal_strlit(".skye");
        reveal_strlit(".");
        reveal_strlit("..");
        assert(seq!['.'] + "skye"@ == ".skye"@);
    }
    let parts = split_parts(lexeme);
    let ghost pv = key_view(parts@);
    let plain = path_from_parts(&parts);
    proof {
        if parts_ok(pv) {
            if plain@ == collected(pv, '/') {
                lemma_collected_relative(pv, '/');
            } else {
                lemma_collected_relative(pv, '\\');
            }
            lemma_named_parts_ok(pv);
        }
    }
    let file_name = file_name_of_parts(&parts);
    let extension = match &file_name {
        Some(n) => crate::package::entry_extension(n.as_str()),
        None => None,
    };
    proof {
        if parts_ok(pv) {
            match file_name {
                Some(n) => {
                    let c = relative_components(pv);
                    if first_nonempty(pv) == Some("."@) {
                        assert(c.last() == named_parts(pv).last());
                    }
                    assert(n@ == named_parts(pv)[named_parts(pv).len() - 1]);
                    assert(crate::package::plain_file_name(n@));
                },
                None => {},
            }
        }
    }
    let relative = path_is_relative(plain.as_str());
    let lib = path_join(skye_path, "lib");
    proof {
        assert(plainly_relative("lib"@));
        if joinable_base(skye_path@) {
            let s1 = lib@[skye_path@.len() as int];
            assert(lib@.last() == 'b');
            assert(no_colon(lib@)) by {
                assert forall|i: int| 0 <= i < lib@.len() implies lib@[i] != ':' by {
                    if i < skye_path@.len() {
                        assert(lib@[i] == skye_path@[i]);
                    }
                }
            }
            if skye_path@.len() >= 2 {
                assert(lib@[0] == skye_path@[0] && lib@[1] == skye_path@[1]);
            } else {
                assert(lib@[0] == skye_path@[0]);
            }
            assert(joinable_base(lib@));
        }
    }
    let in_lib = path_join(lib.as_str(), plain.as_str());
    let in_lib_as_skye = path_with_extension(in_lib.as_str(), "skye");
    let in_source = match source_path {
        Some(source) => Some(path_join(source.as_str(), plain.as_str())),
        None => None,
    };
    let plain_key = relative_key(&parts);
    let mut in_lib_key = strings_of(skye_key);
    in_lib_key.push(String::from_str("lib"));
    proof {
        assert(key_view(in_lib_key@) =~= key_view(skye_key@).push("lib"@));
    }
    push_named(&mut in_lib_key, &parts);
    let in_lib_as_skye_key = key_with_skye_extension(strings_of(&in_lib_key));
    let in_source_key = match source_path {
        Some(_) => match source_key {
            Some(k) => Some(joined_key(k, &parts)),
            None => Some(relative_key(&parts)),
        },
        None => None,
    };
    let res = ImportPaths {
        plain,
        extension,
        relative,
        in_lib,
        in_lib_as_skye,
        in_source,
        plain_key,
        in_lib_key,
        in_lib_as_skye_key,
        in_source_key,
    };
    proof {
        let src = opt_view(*source_path);
        let sk = match source_key {
            Some(k) => Some(key_view(k@)),
            None => None::<Seq<Seq<char>>>,
        };
        if parts_ok(pv) {
            if joinable_base(skye_path@) {
                let s1 = lib@[skye_path@.len() as int];
                let s2 = res.in_lib@[lib@.len() as int];
                assert(res.in_lib@ == skye_path@ + seq![s1] + "lib"@ + seq![s2] + res.plain@);
            }
            match source_path {
                Some(dir) => {
                    if joinable_base(dir@) {
                        let s3 = res.in_source->0@[dir@.len() as int];
                        assert(res.in_source->0@ == dir@ + seq![s3] + res.plain@);
                    }
                },
                None => {},
            }
        }
        assert(parts_ok(pv) && joinable_base(skye_path@) ==> exists|s1: char, s2: char|
            is_separator_char(s1) && is_separator_char(s2) && res.in_lib@ == skye_path@ + seq![s1] + "lib"@ + seq![s2]
                + res.plain@);
        assert(simple_name(res.in_lib@) ==> res.in_lib_as_skye@ == res.in_lib@ + ".skye"@);
        assert(paths_made(res, lexeme@, skye_path@, src, key_view(skye_key@), sk));
    }
    res
}

/// What an import's path is made into, by the platform's rules for paths: the path of its
/// parts, its extension, whether it is relative, and the places it may stand for.
pub struct ImportPaths {
    pub plain: String,
    pub extension: Option<String>,
    pub relative: bool,
    /// The path in the compiler's library directory.
    pub in_lib: String,
    /// The path in the library directory, with the extension `skye`.
    pub in_lib_as_skye: String,
    /// The path in the directory of the file being compiled, where there is one.
    pub in_source: Option<String>,
    /// The components of each of these paths, by which imports of one file are recognised.
    pub plain_key: Vec<String>,
    pub in_lib_key: Vec<String>,
    pub in_lib_as_skye_key: Vec<String>,
    pub in_source_key: Option<Vec<String>>,
}

/// The components of the path that an import leads to (see `resolved`).
pub open spec fn resolved_key(p: ImportPaths, type_: ImportType) -> Seq<Seq<char>> {
    match p.extension {
        Some(ext) => if type_ == ImportType::Lib {
            key_view(p.in_lib_key@)
        } else if p.relative && p.in_source is Some && type_ != ImportType::Ang {
            match p.in_source_key {
                Some(k) => key_view(k@),
                None => key_view(p.plain_key@),
            }
        } else {
            key_view(p.plain_key@)
        },
        None => key_view(p.in_lib_as_skye_key@),
    }
}

/// Where an import leads, and whether it imports source code of the language (rather than a
/// C file): `None` for a path with no extension that is not relative.
pub open spec fn resolved(p: ImportPaths, type_: ImportType) -> Option<(Seq<char>, bool)> {
    match p.extension {
        Some(ext) => Some(
            (
                if type_ == ImportType::Lib {
                    p.in_lib@
                } else if p.relative && p.in_source is Some && type_ != ImportType::Ang {
                    p.in_source->0@
                } else {
                    p.plain@
                },
                ext@ == "skye"@,
            ),
        ),
        None => if p.relative {
            Some((p.in_lib_as_skye@, true))
        } else {
            None
        },
    }
}

// ---------------------------------------------------------------------------------------------
// What the processor reports.
// ---------------------------------------------------------------------------------------------

#[derive(Debug, PartialEq)]
pub enum ImportMessage {
    /// "A file extension is required on absolute path imports ..."
    MissingExtension,
    /// "Add the file extension ..."
    AddExtension,
    /// "C imports cannot be namespaced ..."
    CImportNotNamespaced,
    /// "A duplicate import was performed"
    DuplicateImport,
    /// "This file was previously imported here"
    PreviouslyImportedHere,
    /// "If this is intentional, use an 'include' statement instead ..."
    UseIncludeInstead,
    /// "The previous import was performed behind another namespace ..."
    PreviousImportInOtherNamespace,
    /// "The previous imports were performed behind other namespaces ..."
    PreviousImportsInOtherNamespaces,
    /// "Could not import file {path}. Error: {error}"
    CouldNotImport { path: String, error: String },
    /// "Could not import this file. Error: {error}"
    CouldNotImportFile { error: String },
    /// "The error(s) were a result of this import"
    ResultOfImport,
}

#[derive(Debug, PartialEq)]
pub struct ImportDiagnostic {
    pub kind: DiagnosticKind,
    pub site: AstPos,
    pub message: ImportMessage,
}

pub open spec fn at_token(kind: DiagnosticKind, tok: Token, message: ImportMessage) -> ImportDiagnostic {
    ImportDiagnostic { kind, site: spec_tok_pos(tok), message }
}

/// The notes that point at the earlier imports of a file.
pub open spec fn earlier_import_notes(record: Seq<(Seq<char>, Token)>) -> Seq<ImportDiagnostic>
    decreases record.len(),
{
    if record.len() == 0 {
        Seq::empty()
    } else {
        earlier_import_notes(record.drop_last()).push(
            at_token(DiagnosticKind::Note, record.last().1, ImportMessage::PreviouslyImportedHere),
        )
    }
}

/// The number of errors among the diagnostics.
pub open spec fn import_error_count(d: Seq<ImportDiagnostic>) -> nat
    decreases d.len(),
{
    if d.len() == 0 {
        0
    } else {
        import_error_count(d.drop_last()) + if d.last().kind == DiagnosticKind::Error {
            1nat
        } else {
            0nat
        }
    }
}

pub(crate) proof fn lemma_import_error_count_append(a: Seq<ImportDiagnostic>, b: Seq<ImportDiagnostic>)
    ensures
        import_error_count(a + b) == import_error_count(a) + import_error_count(b),
    decreases b.len(),
{
    if b.len() == 0 {
        assert(a + b =~= a);
    } else {
        lemma_import_error_count_append(a, b.drop_last());
        assert((a + b).drop_last() =~= a + b.drop_last());
    }
}

proof fn lemma_notes_have_no_errors(record: Seq<(Seq<char>, Token)>)
    ensures
        import_error_count(earlier_import_notes(record)) == 0,
    decreases record.len(),
{
    if record.len() > 0 {
        lemma_notes_have_no_errors(record.drop_last());
        assert(earlier_import_notes(record).drop_last() =~= earlier_import_notes(record.drop_last()));
    }
}

// ---------------------------------------------------------------------------------------------
// The processor.
// ---------------------------------------------------------------------------------------------

/// What to do with an `import` statement.
#[derive(Debug, PartialEq)]
pub enum ImportAction {
    /// Replace it by an empty statement: the file was imported into this namespace before, or
    /// it is a C file imported before.
    Drop,
    /// Keep it: it imports a C file.
    Keep,
    /// Load and process the file at this path; its statements take the import's place.
    Load(String),
    /// Keep it: its path has no extension and is not relative, which is reported.
    Reject,
}

/// A file imported so far, with the namespaces it was imported into and the tokens of those
/// imports, in order.
pub struct ImportRecord {
    pub key: Vec<String>,
    pub namespaces: Vec<(String, Token)>,
}

pub struct ImportProcessor {
    source_path: Option<String>,
    skye_path: String,
    source_key: Option<Vec<String>>,
    skye_key: Vec<String>,
    curr_name: String,
    imports: Vec<ImportRecord>,
    pub errors: usize,
    pub diagnostics: Vec<ImportDiagnostic>,
}

/// The full name of `name` inside the namespace `current` (the global one when empty).
pub open spec fn qualified(current: Seq<char>, name: Seq<char>) -> Seq<char> {
    if current.len() == 0 {
        name
    } else {
        current + "_DOT_"@ + name
    }
}

/// The imports so far: each file's path components with the namespaces it was imported into.
pub open spec fn records_view(r: Seq<ImportRecord>) -> Seq<(Seq<Seq<char>>, Seq<(Seq<char>, Token)>)> {
    r.map_values(|x: ImportRecord| (key_view(x.key@), x.namespaces@.map_values(|n: (String, Token)| (n.0@, n.1))))
}

/// The position of the record of the file with the components `path`, if it was imported before.
pub open spec fn record_index(r: Seq<(Seq<Seq<char>>, Seq<(Seq<char>, Token)>)>, path: Seq<Seq<char>>) -> Option<int> {
    if exists|i: int| 0 <= i < r.len() && r[i].0 == path {
        Some(choose|i: int| 0 <= i < r.len() && r[i].0 == path)
    } else {
        None
    }
}

/// Whether `namespace` is among those a record holds.
pub open spec fn has_namespace(record: Seq<(Seq<char>, Token)>, namespace: Seq<char>) -> bool {
    exists|i: int| 0 <= i < record.len() && record[i].0 == namespace
}

/// What is done with an import, with the path to load as text.
pub enum Choice {
    Drop,
    Keep,
    Load(Seq<char>),
    Reject,
}

pub open spec fn action_is(a: ImportAction, c: Choice) -> bool {
    match (a, c) {
        (ImportAction::Drop, Choice::Drop) => true,
        (ImportAction::Keep, Choice::Keep) => true,
        (ImportAction::Load(p), Choice::Load(q)) => p@ == q,
        (ImportAction::Reject, Choice::Reject) => true,
        _ => false,
    }
}

/// What deciding on an import does: the action, the diagnostics reported, and the imports after.
pub struct ImportDecision {
    pub action: Choice,
    pub reported: Seq<ImportDiagnostic>,
    pub imports: Seq<(Seq<Seq<char>>, Seq<(Seq<char>, Token)>)>,
}

/// The decision on `import tok` (of the given type, `include` when `is_include`) in the
/// namespace `namespace`, with the imports so far `imports`.
pub open spec fn decision(
    imports: Seq<(Seq<Seq<char>>, Seq<(Seq<char>, Token)>)>,
    namespace: Seq<char>,
    tok: Token,
    type_: ImportType,
    is_include: bool,
    paths: ImportPaths,
) -> ImportDecision {
    match resolved(paths, type_) {
        None => ImportDecision {
            action: Choice::Reject,
            reported: seq![
                at_token(DiagnosticKind::Error, tok, ImportMessage::MissingExtension),
                at_token(DiagnosticKind::Note, tok, ImportMessage::AddExtension)
            ],
            imports,
        },
        Some((path, skye)) => {
            let namespaced_c = if !skye && namespace.len() != 0 {
                seq![at_token(DiagnosticKind::Warning, tok, ImportMessage::CImportNotNamespaced)]
            } else {
                Seq::empty()
            };
            let go = if skye {
                Choice::Load(path)
            } else {
                Choice::Keep
            };
            if is_include {
                ImportDecision { action: go, reported: namespaced_c, imports }
            } else {
                match record_index(imports, resolved_key(paths, type_)) {
                    None => ImportDecision {
                        action: go,
                        reported: namespaced_c,
                        imports: imports.push((resolved_key(paths, type_), seq![(namespace, tok)])),
                    },
                    Some(i) => {
                        let record = imports[i].1;
                        let base = namespaced_c + seq![
                            at_token(DiagnosticKind::Warning, tok, ImportMessage::DuplicateImport)
                        ] + earlier_import_notes(record) + seq![
                            at_token(DiagnosticKind::Note, tok, ImportMessage::UseIncludeInstead)
                        ];
                        if !skye || has_namespace(record, namespace) {
                            ImportDecision { action: Choice::Drop, reported: base, imports }
                        } else {
                            ImportDecision {
                                action: go,
                                reported: base.push(
                                    at_token(
                                        DiagnosticKind::Note,
                                        tok,
                                        if record.len() == 1 {
                                            ImportMessage::PreviousImportInOtherNamespace
                                        } else {
                                            ImportMessage::PreviousImportsInOtherNamespaces
                                        },
                                    ),
                                ),
                                imports: imports.update(i, (resolved_key(paths, type_), record.push((namespace, tok)))),
                            }
                        }
                    },
                }
            }
        },
    }
}

fn token_diag(kind: DiagnosticKind, tok: &Token, message: ImportMessage) -> (res: ImportDiagnostic)
    ensures
        res == at_token(kind, *tok, message),
{
    ImportDiagnostic { kind, site: tok_pos(tok), message }
}

/// Whether two lists of path components are the same.
fn same_key(a: &Vec<String>, b: &Vec<String>) -> (res: bool)
    ensures
        res == (key_view(a@) == key_view(b@)),
{
    if a.len() != b.len() {
        proof {
            assert(key_view(a@).len() != key_view(b@).len());
        }
        return false;
    }
    let mut i: usize = 0;
    while i < a.len()
        invariant
            a.len() == b.len(),
            i <= a.len(),
            forall|j: int| 0 <= j < i ==> a@[j]@ == b@[j]@,
        decreases a.len() - i,
    {
        if !str_equal(a[i].as_str(), b[i].as_str()) {
            proof {
                assert(key_view(a@)[i as int] != key_view(b@)[i as int]);
            }
            return false;
        }
        i = i + 1;
    }
    proof {
        assert(key_view(a@) =~= key_view(b@));
    }
    true
}

/// A copy of a list of path components.
fn copy_key(k: &Vec<String>) -> (res: Vec<String>)
    ensures
        key_view(res@) == key_view(k@),
{
    let mut res: Vec<String> = Vec::new();
    let mut i: usize = 0;
    while i < k.len()
        invariant
            i <= k.len(),
            key_view(res@) == key_view(k@.take(i as int)),
        decreases k.len() - i,
    {
        let ghost prev = res@;
        let c = String::from_str(k[i].as_str());
        res.push(c);
        proof {
            assert(res@ == prev.push(c));
            assert(k@.take(i as int + 1) =~= k@.take(i as int).push(k@[i as int]));
            assert(key_view(res@) =~= key_view(prev).push(c@));
            assert(key_view(k@.take(i as int + 1)) =~= key_view(k@.take(i as int)).push(k@[i as int]@));
            assert(key_view(res@) =~= key_view(k@.take(i as int + 1)));
        }
        i = i + 1;
    }
    proof {
        assert(k@.take(k@.len() as int) =~= k@);
    }
    res
}

/// No file is recorded twice.
pub open spec fn distinct_paths(r: Seq<(Seq<Seq<char>>, Seq<(Seq<char>, Token)>)>) -> bool {
    forall|i: int, j: int| 0 <= i < r.len() && 0 <= j < r.len() && i != j ==> r[i].0 != r[j].0
}

impl ImportProcessor {
    /// The directory of the file being compiled, if it has one.
    pub closed spec fn source_dir(&self) -> Option<Seq<char>> {
        match self.source_path {
            Some(p) => Some(p@),
            None => None,
        }
    }

    /// The directory of the compiler's own files.
    pub closed spec fn home(&self) -> Seq<char> {
        self.skye_path@
    }

    /// The components of the directory of the compiler's own files.
    pub closed spec fn home_components(&self) -> Seq<Seq<char>> {
        key_view(self.skye_key@)
    }

    /// The components of the directory of the file being compiled, if it has one.
    pub closed spec fn source_components(&self) -> Option<Seq<Seq<char>>> {
        match self.source_key {
            Some(k) => Some(key_view(k@)),
            None => None,
        }
    }

    /// The namespace being processed.
    pub closed spec fn namespace(&self) -> Seq<char> {
        self.curr_name@
    }

    /// The files imported so far, each with the namespaces it was imported into.
    pub closed spec fn imported(&self) -> Seq<(Seq<Seq<char>>, Seq<(Seq<char>, Token)>)> {
        records_view(self.imports@)
    }

    /// The errors counted so far.
    pub closed spec fn errors_counted(&self) -> usize {
        self.errors
    }

    /// What has been reported so far.
    pub closed spec fn reports(&self) -> Seq<ImportDiagnostic> {
        self.diagnostics@
    }

    /// The processor's records are consistent: no file is recorded twice.
    pub open spec fn wf(&self) -> bool {
        distinct_paths(self.imported())
    }

    pub fn new(path: Option<&str>, skye_path: String) -> (res: Self)
        ensures
            res.source_dir() == (match path {
                Some(p) => Some(p@),
                None => None::<Seq<char>>,
            }),
            res.home() == skye_path@,
            res.namespace() == Seq::<char>::empty(),
            res.imported() == Seq::<(Seq<Seq<char>>, Seq<(Seq<char>, Token)>)>::empty(),
            res.errors_counted() == 0,
            res.reports() == Seq::<ImportDiagnostic>::empty(),
            res.source_components() is Some <==> path is Some,
            res.wf(),
    {
        let skye_key = path_components(skye_path.as_str());
        let source_key = match path {
            Some(p) => Some(path_components(p)),
            None => None,
        };
        let res = ImportProcessor {
            skye_path,
            skye_key,
            source_key,
            imports: Vec::new(),
            curr_name: String::new(),
            source_path: match path {
                Some(p) => Some(String::from_str(p)),
                None => None,
            },
            errors: 0,
            diagnostics: Vec::new(),
        };
        assert(res.imported() =~= Seq::<(Seq<Seq<char>>, Seq<(Seq<char>, Token)>)>::empty());
        res
    }

    /// The full name of `name` in the namespace being processed.
    pub fn get_name(&self, name: &str) -> (res: String)
        ensures
            res@ == qualified(self.namespace(), name@),
    {
        if self.curr_name.as_str().unicode_len() == 0 {
            String::from_str(name)
        } else {
            let mut res = self.curr_name.clone();
            res.append("_DOT_");
            res.append(name);
            res
        }
    }

    /// Enters the namespace `name` inside the current one; returns the current one, to be
    /// restored with `leave_namespace`.
    pub fn enter_namespace(&mut self, name: &str) -> (previous: String)
        ensures
            previous@ == old(self).namespace(),
            final(self).namespace() == qualified(old(self).namespace(), name@),
            final(self).imported() == old(self).imported(),
            final(self).errors_counted() == old(self).errors_counted(),
            final(self).reports() == old(self).reports(),
            final(self).source_dir() == old(self).source_dir(),
            final(self).home() == old(self).home(),
    {
        let full_name = self.get_name(name);
        let previous = self.curr_name.clone();
        self.curr_name = full_name;
        previous
    }

    pub fn leave_namespace(&mut self, previous: String)
        ensures
            final(self).namespace() == previous@,
            final(self).imported() == old(self).imported(),
            final(self).errors_counted() == old(self).errors_counted(),
            final(self).reports() == old(self).reports(),
            final(self).source_dir() == old(self).source_dir(),
            final(self).home() == old(self).home(),
    {
        self.curr_name = previous;
    }

    /// The places an import's path may stand for.
    pub fn import_paths(&self, lexeme: &str) -> (res: ImportPaths)
        ensures
            paths_made(res, lexeme@, self.home(), self.source_dir(), self.home_components(), self.source_components()),
    {
        import_paths(lexeme, self.skye_path.as_str(), &self.source_path, &self.skye_key, &self.source_key)
    }

    fn report(&mut self, d: ImportDiagnostic)
        requires
            d.kind == DiagnosticKind::Error ==> old(self).errors < usize::MAX,
        ensures
            final(self).diagnostics@ == old(self).diagnostics@.push(d),
            final(self).errors == old(self).errors + if d.kind == DiagnosticKind::Error { 1nat } else { 0nat },
            final(self).imports == old(self).imports,
            final(self).curr_name == old(self).curr_name,
            final(self).source_path == old(self).source_path,
            final(self).skye_path == old(self).skye_path,
    {
        if d.kind == DiagnosticKind::Error {
            self.errors = self.errors + 1;
        }
        self.diagnostics.push(d);
    }

    fn find_record(&self, key: &Vec<String>) -> (res: Option<usize>)
        requires
            self.wf(),
        ensures
            res is Some <==> record_index(self.imported(), key_view(key@)) is Some,
            res is Some ==> record_index(self.imported(), key_view(key@)) == Some(res->0 as int),
            res is Some ==> res->0 < self.imports@.len(),
    {
        let n = self.imports.len();
        let mut i: usize = 0;
        while i < n
            invariant
                n == self.imports@.len(),
                i <= n,
                self.wf(),
                forall|j: int| 0 <= j < i ==> self.imported()[j].0 != key_view(key@),
            decreases n - i,
        {
            if same_key(&self.imports[i].key, key) {
                proof {
                    let r = self.imported();
                    assert(r[i as int].0 == key_view(key@));
                    let c = choose|k: int| 0 <= k < r.len() && r[k].0 == key_view(key@);
                    assert(c == i);
                }
                return Some(i);
            }
            i = i + 1;
        }
        None
    }

    /// Decides what to do with the import of `tok` (of the given type, an `include` when
    /// `is_include`) whose path stands for `paths`: reports what it finds and records the import.
    pub fn decide_import(&mut self, tok: &Token, type_: ImportType, is_include: bool, paths: ImportPaths) -> (res:
        ImportAction)
        requires
            old(self).wf(),
            old(self).errors_counted() + import_error_count(
                decision(old(self).imported(), old(self).namespace(), *tok, type_, is_include, paths).reported,
            ) <= usize::MAX,
        ensures
            ({
                let d = decision(old(self).imported(), old(self).namespace(), *tok, type_, is_include, paths);
                &&& action_is(res, d.action)
                &&& final(self).reports() == old(self).reports() + d.reported
                &&& final(self).errors_counted() == old(self).errors_counted() + import_error_count(d.reported)
                &&& final(self).imported() == d.imports
            }),
            final(self).wf(),
            final(self).namespace() == old(self).namespace(),
            final(self).source_dir() == old(self).source_dir(),
            final(self).home() == old(self).home(),
    {
        let ghost d = decision(self.imported(), self.namespace(), *tok, type_, is_include, paths);
        let ghost start = self.diagnostics@;
        let ghost start_errors = self.errors;
        let ghost acc = Seq::<ImportDiagnostic>::empty();
        proof {
            assert(start + acc =~= start);
        }
        let resolved_path: Option<(String, Vec<String>, bool)> = match &paths.extension {
            Some(ext) => {
                let (path, key) = if type_ == ImportType::Lib {
                    (paths.in_lib.clone(), copy_key(&paths.in_lib_key))
                } else if paths.relative && paths.in_source.is_some() && type_ != ImportType::Ang {
                    let key = match &paths.in_source_key {
                        Some(k) => copy_key(k),
                        None => copy_key(&paths.plain_key),
                    };
                    match &paths.in_source {
                        Some(p) => (p.clone(), key),
                        None => (paths.plain.clone(), key),
                    }
                } else {
                    (paths.plain.clone(), copy_key(&paths.plain_key))
                };
                Some((path, key, str_equal(ext.as_str(), "skye")))
            },
            None => if paths.relative {
                Some((paths.in_lib_as_skye.clone(), copy_key(&paths.in_lib_as_skye_key), true))
            } else {
                None
            },
        };
        let (path, key, skye) = match resolved_path {
            None => {
                let e = token_diag(DiagnosticKind::Error, tok, ImportMessage::MissingExtension);
                let n = token_diag(DiagnosticKind::Note, tok, ImportMessage::AddExtension);
                proof {
                    lemma_count_push(Seq::empty(), e);
                    lemma_count_push(seq![e], n);
                    assert(Seq::<ImportDiagnostic>::empty().push(e) =~= seq![e]);
                    assert(seq![e].push(n) =~= seq![e, n]);
                }
                self.report(e);
                self.report(n);
                proof {
                    assert(self.diagnostics@ =~= start + d.reported);
                }
                return ImportAction::Reject;
            },
            Some(x) => x,
        };
        proof {
            assert(resolved(paths, type_) == Some((path@, skye)));
            assert(resolved_key(paths, type_) == key_view(key@));
        }
        if !skye && self.curr_name.as_str().unicode_len() != 0 {
            let w = token_diag(DiagnosticKind::Warning, tok, ImportMessage::CImportNotNamespaced);
            proof {
                lemma_count_push(acc, w);
                acc = acc.push(w);
            }
            self.report(w);
        }
        let ghost namespaced_c = acc;
        proof {
            assert(self.diagnostics@ =~= start + acc);
            assert(namespaced_c == (if !skye && self.namespace().len() != 0 {
                seq![at_token(DiagnosticKind::Warning, *tok, ImportMessage::CImportNotNamespaced)]
            } else {
                Seq::empty()
            }));
        }
        if !is_include {
            match self.find_record(&key) {
                Some(i) => {
                    let ghost record = self.imported()[i as int].1;
                    let w = token_diag(DiagnosticKind::Warning, tok, ImportMessage::DuplicateImport);
                    proof {
                        lemma_count_push(acc, w);
                        acc = acc.push(w);
                    }
                    self.report(w);
                    let ghost before_notes = acc;
                    let ghost imports0 = self.imports@;
                    let count = self.imports[i].namespaces.len();
                    let mut k: usize = 0;
                    while k < count
                        invariant
                            i < self.imports@.len(),
                            count == self.imports@[i as int].namespaces@.len(),
                            record == self.imported()[i as int].1,
                            k <= count,
                            acc == before_notes + earlier_import_notes(record.take(k as int)),
                            self.diagnostics@ == start + acc,
                            self.errors == start_errors + import_error_count(acc),
                            import_error_count(acc) == import_error_count(before_notes),
                            self.imports@ == imports0,
                            imports0 == old(self).imports@,
                            self.curr_name == old(self).curr_name,
                            self.source_path == old(self).source_path,
                            self.skye_path == old(self).skye_path,
                        decreases count - k,
                    {
                        let note = token_diag(
                            DiagnosticKind::Note,
                            &self.imports[i].namespaces[k].1,
                            ImportMessage::PreviouslyImportedHere,
                        );
                        proof {
                            lemma_count_push(acc, note);
                            assert(record.take(k as int + 1).drop_last() =~= record.take(k as int));
                            assert(record[k as int].1 == self.imports@[i as int].namespaces@[k as int].1);
                            acc = acc.push(note);
                        }
                        self.report(note);
                        proof {
                            assert(self.diagnostics@ =~= start + acc);
                        }
                        k = k + 1;
                    }
                    proof {
                        assert(record.take(count as int) =~= record);
                    }
                    let u = token_diag(DiagnosticKind::Note, tok, ImportMessage::UseIncludeInstead);
                    proof {
                        lemma_count_push(acc, u);
                        acc = acc.push(u);
                    }
                    self.report(u);
                    proof {
                        assert(acc =~= namespaced_c + seq![
                            at_token(DiagnosticKind::Warning, *tok, ImportMessage::DuplicateImport)
                        ] + earlier_import_notes(record) + seq![
                            at_token(DiagnosticKind::Note, *tok, ImportMessage::UseIncludeInstead)
                        ]);
                        assert(self.diagnostics@ =~= start + acc);
                    }
                    let has = self.has_namespace_at(i);
                    if !skye || has {
                        return ImportAction::Drop;
                    }
                    let o = token_diag(
                        DiagnosticKind::Note,
                        tok,
                        if count == 1 {
                            ImportMessage::PreviousImportInOtherNamespace
                        } else {
                            ImportMessage::PreviousImportsInOtherNamespaces
                        },
                    );
                    proof {
                        lemma_count_push(acc, o);
                        acc = acc.push(o);
                    }
                    self.report(o);
                    proof {
                        assert(self.diagnostics@ =~= start + acc);
                    }
                    self.add_namespace_at(i, tok);
                },
                None => {
                    self.add_record(key, tok);
                },
            }
        }
        if skye {
            ImportAction::Load(path)
        } else {
            ImportAction::Keep
        }
    }

    fn has_namespace_at(&self, i: usize) -> (res: bool)
        requires
            i < self.imports@.len(),
        ensures
            res == has_namespace(self.imported()[i as int].1, self.namespace()),
    {
        let ghost record = self.imported()[i as int].1;
        let n = self.imports[i].namespaces.len();
        let mut k: usize = 0;
        while k < n
            invariant
                i < self.imports@.len(),
                n == self.imports@[i as int].namespaces@.len(),
                record == self.imported()[i as int].1,
                k <= n,
                forall|j: int| 0 <= j < k ==> record[j].0 != self.namespace(),
            decreases n - k,
        {
            if str_equal(self.imports[i].namespaces[k].0.as_str(), self.curr_name.as_str()) {
                proof {
                    assert(record[k as int].0 == self.namespace());
                }
                return true;
            }
            k = k + 1;
        }
        false
    }

    fn add_namespace_at(&mut self, i: usize, tok: &Token)
        requires
            i < old(self).imports@.len(),
            old(self).wf(),
        ensures
            final(self).imported() == old(self).imported().update(
                i as int,
                (
                    old(self).imported()[i as int].0,
                    old(self).imported()[i as int].1.push((old(self).namespace(), *tok)),
                ),
            ),
            final(self).wf(),
            final(self).diagnostics == old(self).diagnostics,
            final(self).errors == old(self).errors,
            final(self).curr_name == old(self).curr_name,
            final(self).source_path == old(self).source_path,
            final(self).skye_path == old(self).skye_path,
    {
        let mut imports: Vec<ImportRecord> = Vec::new();
        std::mem::swap(&mut imports, &mut self.imports);
        let ghost before = imports@;
        let mut record = imports.remove(i);
        let ghost old_record = record;
        record.namespaces.push((self.curr_name.clone(), tok.clone()));
        proof {
            assert(record.namespaces@ == old_record.namespaces@.push((self.curr_name, *tok)));
        }
        imports.insert(i, record);
        proof {
            assert(imports@ =~= before.update(i as int, record));
            let updated = records_view(before).update(
                i as int,
                (records_view(before)[i as int].0, records_view(before)[i as int].1.push((self.curr_name@, *tok))),
            );
            assert(record.namespaces@.map_values(|n: (String, Token)| (n.0@, n.1)) =~= old_record.namespaces@.map_values(
                |n: (String, Token)| (n.0@, n.1),
            ).push((self.curr_name@, *tok)));
            assert(records_view(imports@) =~= updated);
        }
        self.imports = imports;
    }

    fn add_record(&mut self, key: Vec<String>, tok: &Token)
        requires
            old(self).wf(),
            record_index(old(self).imported(), key_view(key@)) is None,
        ensures
            final(self).imported() == old(self).imported().push((key_view(key@), seq![(old(self).namespace(), *tok)])),
            final(self).wf(),
            final(self).diagnostics == old(self).diagnostics,
            final(self).errors == old(self).errors,
            final(self).curr_name == old(self).curr_name,
            final(self).source_path == old(self).source_path,
            final(self).skye_path == old(self).skye_path,
    {
        let ghost before = self.imports@;
        let ghost k = key_view(key@);
        let mut namespaces: Vec<(String, Token)> = Vec::new();
        namespaces.push((self.curr_name.clone(), tok.clone()));
        let record = ImportRecord { key, namespaces };
        self.imports.push(record);
        proof {
            assert(self.imports@ == before.push(record));
            assert(namespaces@.map_values(|n: (String, Token)| (n.0@, n.1)) =~= seq![(self.curr_name@, *tok)]);
            assert(records_view(self.imports@) =~= records_view(before).push((k, seq![(self.curr_name@, *tok)])));
            let r = self.imported();
            assert forall|a: int, b: int| 0 <= a < r.len() && 0 <= b < r.len() && a != b implies r[a].0 != r[b].0 by {
                if a < before.len() && b < before.len() {
                    assert(r[a] == records_view(before)[a]);
                    assert(r[b] == records_view(before)[b]);
                } else if a < before.len() {
                    assert(r[a] == records_view(before)[a]);
                } else {
                    assert(r[b] == records_view(before)[b]);
                }
            }
        }
    }
}

proof fn lemma_count_push(s: Seq<ImportDiagnostic>, x: ImportDiagnostic)
    ensures
        import_error_count(s.push(x)) == import_error_count(s) + if x.kind == DiagnosticKind::Error { 1nat } else { 0nat },
{
    assert(s.push(x).drop_last() =~= s);
}

/// The reports after a file's statements were processed: a note at `site` when errors were
/// counted meanwhile.
pub open spec fn import_result_note(errors_before: usize, errors_now: usize, site: AstPos) -> Seq<ImportDiagnostic> {
    if errors_now != errors_before {
        seq![ImportDiagnostic { kind: DiagnosticKind::Note, site, message: ImportMessage::ResultOfImport }]
    } else {
        Seq::empty()
    }
}

impl ImportProcessor {
    /// The import of `import_tok`, whose file's statements were loaded and processed, becomes the
    /// block of those statements; a note is reported at the import when errors were counted
    /// since there were `errors_before`.
    pub fn import_loaded(&mut self, errors_before: usize, import_tok: &Token, statements: Vec<Statement>) -> (res:
        Statement)
        ensures
            res matches Statement::ImportedBlock { statements: l, source } && l.seq() == statements@ && source
                == spec_tok_pos(*import_tok),
            final(self).reports() == old(self).reports() + import_result_note(
                errors_before,
                old(self).errors_counted(),
                spec_tok_pos(*import_tok),
            ),
            final(self).errors_counted() == old(self).errors_counted(),
            final(self).imported() == old(self).imported(),
            final(self).wf() == old(self).wf(),
            final(self).namespace() == old(self).namespace(),
            final(self).source_dir() == old(self).source_dir(),
            final(self).home() == old(self).home(),
    {
        let ghost start = self.diagnostics@;
        if self.errors != errors_before {
            self.report(
                ImportDiagnostic {
                    kind: DiagnosticKind::Note,
                    site: tok_pos(import_tok),
                    message: ImportMessage::ResultOfImport,
                },
            );
        } else {
            assert(self.diagnostics@ =~= start + Seq::<ImportDiagnostic>::empty());
        }
        Statement::ImportedBlock { statements: List::from_vec(statements), source: tok_pos(import_tok) }
    }

    /// Reports that the file at `path`, imported by `import_tok`, could not be loaded.
    pub fn import_failed(&mut self, import_tok: &Token, path: String, error: String)
        requires
            old(self).errors_counted() < usize::MAX,
        ensures
            final(self).reports() == old(self).reports().push(
                at_token(DiagnosticKind::Error, *import_tok, ImportMessage::CouldNotImport { path, error }),
            ),
            final(self).errors_counted() == old(self).errors_counted() + 1,
            final(self).imported() == old(self).imported(),
            final(self).wf() == old(self).wf(),
            final(self).namespace() == old(self).namespace(),
            final(self).source_dir() == old(self).source_dir(),
            final(self).home() == old(self).home(),
    {
        self.report(token_diag(DiagnosticKind::Error, import_tok, ImportMessage::CouldNotImport { path, error }));
    }

    /// After the statements of an imported block were processed: a note at the block's source
    /// when errors were counted since there were `errors_before`.
    pub fn block_processed(&mut self, errors_before: usize, source: &AstPos)
        ensures
            final(self).reports() == old(self).reports() + import_result_note(
                errors_before,
                old(self).errors_counted(),
                *source,
            ),
            final(self).errors_counted() == old(self).errors_counted(),
            final(self).imported() == old(self).imported(),
            final(self).wf() == old(self).wf(),
            final(self).namespace() == old(self).namespace(),
            final(self).source_dir() == old(self).source_dir(),
            final(self).home() == old(self).home(),
    {
        let ghost start = self.diagnostics@;
        if self.errors != errors_before {
            self.report(
                ImportDiagnostic { kind: DiagnosticKind::Note, site: source.clone(), message: ImportMessage::ResultOfImport },
            );
        } else {
            assert(self.diagnostics@ =~= start + Seq::<ImportDiagnostic>::empty());
        }
    }
}

// ---------------------------------------------------------------------------------------------
// A file is imported once per namespace.
// ---------------------------------------------------------------------------------------------

proof fn lemma_record_index_at(r: Seq<(Seq<Seq<char>>, Seq<(Seq<char>, Token)>)>, i: int)
    requires
        distinct_paths(r),
        0 <= i < r.len(),
    ensures
        record_index(r, r[i].0) == Some(i),
{
    let c = choose|k: int| 0 <= k < r.len() && r[k].0 == r[i].0;
    assert(r[c].0 == r[i].0);
}

/// Importing the same file (a path with the same components) again into the same namespace,
/// with `import` both times, drops the second import (the first import having found its file).
pub proof fn lemma_import_once_per_namespace(
    imports: Seq<(Seq<Seq<char>>, Seq<(Seq<char>, Token)>)>,
    namespace: Seq<char>,
    first: (Token, ImportType, ImportPaths),
    second: (Token, ImportType, ImportPaths),
    first_path: Seq<char>,
    second_path: Seq<char>,
    skye: bool,
)
    requires
        distinct_paths(imports),
        resolved(first.2, first.1) == Some((first_path, skye)),
        resolved(second.2, second.1) == Some((second_path, skye)),
        resolved_key(first.2, first.1) == resolved_key(second.2, second.1),
    ensures
        decision(
            decision(imports, namespace, first.0, first.1, false, first.2).imports,
            namespace,
            second.0,
            second.1,
            false,
            second.2,
        ).action == Choice::Drop,
{
    let d1 = decision(imports, namespace, first.0, first.1, false, first.2);
    let after = d1.imports;
    let path = resolved_key(first.2, first.1);
    match record_index(imports, path) {
        None => {
            assert(after == imports.push((path, seq![(namespace, first.0)])));
            assert forall|i: int, j: int| 0 <= i < after.len() && 0 <= j < after.len() && i != j implies after[i].0
                != after[j].0 by {
                if i < imports.len() && j < imports.len() {
                } else if i < imports.len() {
                    assert(imports[i].0 == after[i].0);
                    assert(!(imports[i].0 == path));
                } else {
                    assert(imports[j].0 == after[j].0);
                    assert(!(imports[j].0 == path));
                }
            }
            lemma_record_index_at(after, imports.len() as int);
            assert(after[imports.len() as int].1[0].0 == namespace);
        },
        Some(i) => {
            let record = imports[i].1;
            if !skye || has_namespace(record, namespace) {
                assert(after == imports);
            } else {
                assert(after == imports.update(i, (path, record.push((namespace, first.0)))));
                assert forall|a: int, b: int| 0 <= a < after.len() && 0 <= b < after.len() && a != b implies after[a].0
                    != after[b].0 by {
                    assert(after[a].0 == imports[a].0);
                    assert(after[b].0 == imports[b].0);
                }
                lemma_record_index_at(after, i);
                assert(after[i].1[record.len() as int].0 == namespace);
            }
        },
    }
}

/// Importing the same path twice into the same namespace, with `import` and the same import type
/// both times, drops the second import, where the path's parts have no separator and no `:`
/// and the first import found its file.
pub proof fn lemma_same_lexeme_once(
    imports: Seq<(Seq<Seq<char>>, Seq<(Seq<char>, Token)>)>,
    namespace: Seq<char>,
    lexeme: Seq<char>,
    type_: ImportType,
    skye_path: Seq<char>,
    source: Option<Seq<char>>,
    skye_key: Seq<Seq<char>>,
    source_key: Option<Seq<Seq<char>>>,
    first: (Token, ImportPaths),
    second: (Token, ImportPaths),
)
    requires
        distinct_paths(imports),
        parts_ok(slash_parts(lexeme)),
        source is Some ==> source_key is Some,
        paths_made(first.1, lexeme, skye_path, source, skye_key, source_key),
        paths_made(second.1, lexeme, skye_path, source, skye_key, source_key),
        resolved(first.1, type_) is Some,
    ensures
        decision(
            decision(imports, namespace, first.0, type_, false, first.1).imports,
            namespace,
            second.0,
            type_,
            false,
            second.1,
        ).action == Choice::Drop,
{
    let (p1, p2) = (first.1, second.1);
    assert(opt_view(p1.extension) == opt_view(p2.extension));
    assert(p1.extension is Some <==> p2.extension is Some);
    assert(resolved_key(p1, type_) == resolved_key(p2, type_));
    let (path1, skye) = resolved(p1, type_)->0;
    let r2 = resolved(p2, type_)->0;
    let path2 = r2.0;
    assert(resolved(p2, type_) == Some((path2, skye)));
    lemma_import_once_per_namespace(imports, namespace, (first.0, type_, p1), (second.0, type_, p2), path1, path2, skye);
}

} // verus!
