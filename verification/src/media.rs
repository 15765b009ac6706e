//! Where an uploaded file is stored before it is decoded.

use vstd::prelude::*;
use vstd::string::*;

verus! {

/// What follows the last `c` in `s`, or all of `s` where `c` does not occur.
pub open spec fn after_last(s: Seq<char>, c: char) -> Seq<char>
    decreases s.len(),
{
    if s.len() == 0 || s.last() == c {
        Seq::empty()
    } else {
        after_last(s.drop_last(), c).push(s.last())
    }
}

/// The last component of the path `s`, apart from trailing slashes and `.`
/// components. `None` where there is none or it is `..`.
pub open spec fn file_name_of(s: Seq<char>) -> Option<Seq<char>>
    decreases s.len(),
{
    if s.len() == 0 {
        None
    } else if s.last() == '/' || after_last(s, '/') == seq!['.'] {
        file_name_of(s.drop_last())
    } else if after_last(s, '/') == seq!['.', '.'] {
        None
    } else {
        Some(after_last(s, '/'))
    }
}

/// The extension of the path `s`: what follows the last dot of its file name,
/// unless that dot is missing or comes first.
pub open spec fn extension_of(s: Seq<char>) -> Option<Seq<char>> {
    match file_name_of(s) {
        Some(name) if name.contains('.') && after_last(name, '.').len() + 1 < name.len() => Some(
            after_last(name, '.'),
        ),
        _ => None,
    }
}

/// Whether every platform reads `s` as the same path: only slashes separate its
/// components, and it begins with no drive letter and no share name.
pub open spec fn is_portable_path(s: Seq<char>) -> bool {
    &&& !s.contains('\\')
    &&& !(s.len() >= 2 && s[1] == ':')
    &&& !(s.len() >= 2 && s[0] == '/' && s[1] == '/')
}

/// Whether some platform takes `c` for the end of a directory or a drive.
pub open spec fn is_separator(c: char) -> bool {
    c == '/' || c == '\\' || c == ':'
}

/// What follows the last separator in `s`, or all of `s` where there is none.
pub open spec fn base_of(s: Seq<char>) -> Seq<char>
    decreases s.len(),
{
    if s.len() == 0 || is_separator(s.last()) {
        Seq::empty()
    } else {
        base_of(s.drop_last()).push(s.last())
    }
}

/// Whether `s` begins with two slashes of either kind, as the names of shares and
/// devices do.
pub open spec fn has_share_prefix(s: Seq<char>) -> bool {
    &&& s.len() >= 2
    &&& s[0] == '/' || s[0] == '\\'
    &&& s[1] == '/' || s[1] == '\\'
}

/// Whether every platform sees the same extension at the end of `s`, whatever it
/// takes for separators: there is a dot behind the last of them, and a character
/// between the two.
pub open spec fn has_plain_extension(s: Seq<char>) -> bool {
    let base = base_of(s);
    &&& !has_share_prefix(s)
    &&& base != seq!['.', '.']
    &&& base.contains('.')
    &&& after_last(base, '.').len() + 1 < base.len()
}

/// The extension that every platform sees at the end of `s`.
pub open spec fn plain_extension(s: Seq<char>) -> Seq<char>
    recommends
        has_plain_extension(s),
{
    after_last(base_of(s), '.')
}

/// Whether `ext` is a part of `s` behind a dot, without a dot in it.
pub open spec fn is_dotted_part(ext: Seq<char>, s: Seq<char>) -> bool {
    &&& !ext.contains('.')
    &&& exists|i: int|
        0 < i && i + ext.len() <= s.len() && #[trigger] s[i - 1] == '.' && s.subrange(
            i,
            i + ext.len(),
        ) == ext
}

/// Calls `Path::extension`. On a name that every platform reads alike this is
/// the part behind the last dot of the last component. On other names it is the
/// part behind the last dot, if that dot comes behind the last separator of any
/// platform and not directly behind it. Elsewhere the platform's rules for
/// separators and prefixes decide which part it is, or whether there is one.
#[verifier::external_body]
fn path_extension(name: &str) -> (r: Option<&str>)
    ensures
        is_portable_path(name@) ==> match r {
            Some(ext) => extension_of(name@) == Some(ext@),
            None => extension_of(name@) is None,
        },
        has_plain_extension(name@) ==> match r {
            Some(ext) => ext@ == plain_extension(name@),
            None => false,
        },
        r matches Some(ext) ==> is_dotted_part(ext@, name@),
{
    match std::path::Path::new(name).extension() {
        Some(ext) => ext.to_str(),
        None => None,
    }
}

/// The suffix of the temporary file for an upload with this extension.
pub open spec fn suffix_text(ext: Option<Seq<char>>) -> Seq<char> {
    match ext {
        Some(e) => seq!['.'] + e,
        None => ".wav"@,
    }
}

/// The suffix for a known extension; an upload without one counts as WAV.
pub fn suffix_for(ext: Option<&str>) -> (r: String)
    ensures
        r@ == suffix_text(
            match ext {
                Some(e) => Some(e@),
                None => None,
            },
        ),
{
    match ext {
        Some(e) => {
            let mut suffix: String = ".".to_owned();
            suffix.append(e);
            proof {
                reveal_strlit(".");
                assert("."@ =~= seq!['.']);
            }
            suffix
        },
        None => ".wav".to_owned(),
    }
}

/// Whether `suffix` is right for an upload under the name `file_name`.
pub open spec fn is_suffix_for(file_name: Option<Seq<char>>, suffix: Seq<char>) -> bool {
    match file_name {
        None => suffix == suffix_text(None),
        Some(name) => {
            &&& is_portable_path(name) ==> suffix == suffix_text(extension_of(name))
            &&& has_plain_extension(name) ==> suffix == suffix_text(Some(plain_extension(name)))
            &&& suffix == suffix_text(None) || exists|ext: Seq<char>|
                #[trigger] is_dotted_part(ext, name) && suffix == suffix_text(Some(ext))
        },
    }
}

/// The suffix of the temporary file for an upload, so that the decoder sees the
/// extension under which the file was sent.
pub fn temp_suffix(file_name: Option<&str>) -> (r: String)
    ensures
        is_suffix_for(
            match file_name {
                Some(name) => Some(name@),
                None => None,
            },
            r@,
        ),
{
    let ext: Option<&str> = match file_name {
        Some(name) => path_extension(name),
        None => None,
    };
    suffix_for(ext)
}

proof fn lemma_after_last(s: Seq<char>, c: char)
    ensures
        !after_last(s, c).contains(c),
        forall|d: char| #[trigger] after_last(s, c).contains(d) ==> s.contains(d),
    decreases s.len(),
{
    if s.len() > 0 && s.last() != c {
        let rest = s.drop_last();
        lemma_after_last(rest, c);
        assert forall|d: char| #[trigger] after_last(s, c).contains(d) implies s.contains(d) && d
            != c by {
            let i = choose|i: int| 0 <= i < after_last(s, c).len() && after_last(s, c)[i] == d;
            if i < after_last(rest, c).len() {
                assert(after_last(rest, c)[i] == d);
                assert(after_last(rest, c).contains(d));
                let j = choose|j: int| 0 <= j < rest.len() && rest[j] == d;
                assert(s[j] == d);
            } else {
                assert(s[s.len() - 1] == d);
            }
        }
    }
}

proof fn lemma_base(s: Seq<char>)
    ensures
        !base_of(s).contains('/'),
    decreases s.len(),
{
    if s.len() > 0 && !is_separator(s.last()) {
        lemma_base(s.drop_last());
        let rest = base_of(s.drop_last());
        assert forall|i: int| 0 <= i < base_of(s).len() implies base_of(s)[i] != '/' by {
            if i < rest.len() && rest[i] == '/' {
                assert(rest.contains('/'));
            }
        }
    }
}

proof fn lemma_file_name(s: Seq<char>)
    ensures
        file_name_of(s) matches Some(name) ==> !name.contains('/'),
    decreases s.len(),
{
    lemma_after_last(s, '/');
    if s.len() > 0 {
        lemma_file_name(s.drop_last());
    }
}

/// The name of an upload cannot lead out of the directory for temporary files:
/// the suffix that is taken from it holds no slash.
pub proof fn law_suffix_has_no_slash(file_name: Option<Seq<char>>, suffix: Seq<char>)
    requires
        is_suffix_for(file_name, suffix),
        file_name matches Some(name) ==> is_portable_path(name) || has_plain_extension(name),
    ensures
        !suffix.contains('/'),
{
    reveal_strlit(".wav");
    let ext = match file_name {
        Some(name) if has_plain_extension(name) => Some(plain_extension(name)),
        Some(name) => extension_of(name),
        None => None,
    };
    if let Some(e) = ext {
        let path = file_name->Some_0;
        if has_plain_extension(path) {
            lemma_base(path);
            lemma_after_last(base_of(path), '.');
        } else {
            lemma_file_name(path);
            lemma_after_last(file_name_of(path)->Some_0, '.');
        }
        assert forall|i: int| 0 <= i < suffix.len() implies suffix[i] != '/' by {
            if i > 0 && suffix[i] == '/' {
                assert(e[i - 1] == '/');
                assert(e.contains('/'));
            }
        }
    }
}

proof fn lemma_after_last_push(s: Seq<char>, c: char, rest: Seq<char>)
    requires
        !rest.contains(c),
    ensures
        after_last(rest, c) == rest,
        after_last(s.push(c) + rest, c) == rest,
    decreases rest.len(),
{
    if rest.len() == 0 {
        assert(s.push(c) + rest =~= s.push(c));
        assert(after_last(rest, c) =~= rest);
        assert(after_last(s.push(c), c) =~= rest);
    } else {
        let less = rest.drop_last();
        assert forall|i: int| 0 <= i < less.len() implies less[i] != c by {
            assert(rest[i] == less[i]);
        }
        assert(rest[rest.len() - 1] != c);
        lemma_after_last_push(s, c, less);
        assert((s.push(c) + rest).drop_last() =~= s.push(c) + less);
        assert(after_last(rest, c) =~= rest);
        assert(after_last(s.push(c) + rest, c) =~= rest);
    }
}

/// What follows the last `c` of a text: all that stands behind a `c` and has none
/// in it, or the whole text where there is no `c`.
pub proof fn law_after_last(s: Seq<char>, c: char, rest: Seq<char>)
    requires
        !rest.contains(c),
    ensures
        after_last(rest, c) == rest,
        after_last(s.push(c) + rest, c) == rest,
{
    lemma_after_last_push(s, c, rest);
}

/// The file name of a path is what stands behind its last slash, or the whole path
/// where there is none, unless it is a name for this directory or for the one above.
/// What leads to the file makes no difference.
pub proof fn law_file_name(dir: Seq<char>, base: Seq<char>)
    requires
        base.len() > 0,
        !base.contains('/'),
        base != seq!['.'],
    ensures
        base != seq!['.', '.'] ==> file_name_of(base) == Some(base) && file_name_of(
            dir.push('/') + base,
        ) == Some(base),
        base == seq!['.', '.'] ==> file_name_of(base) is None && file_name_of(dir.push('/') + base)
            is None,
{
    lemma_after_last_push(dir, '/', base);
    let path = dir.push('/') + base;
    assert(base[base.len() - 1] != '/');
    assert(path.last() == base.last());
}

/// Slashes and names for this directory at the end of a path make no difference to
/// its file name, and a path of nothing else has none.
pub proof fn law_file_name_skips(path: Seq<char>)
    ensures
        file_name_of(path.push('/')) == file_name_of(path),
        file_name_of(path.push('/').push('.')) == file_name_of(path),
        extension_of(path.push('/')) == extension_of(path),
        extension_of(path.push('/').push('.')) == extension_of(path),
        file_name_of(Seq::empty()) is None,
        file_name_of(seq!['.']) is None,
        extension_of(Seq::empty()) is None,
        extension_of(seq!['.']) is None,
{
    let slash = path.push('/');
    let dot = slash.push('.');
    assert(slash.drop_last() =~= path);
    assert(dot.drop_last() =~= slash);
    let name = seq!['.'];
    assert forall|i: int| 0 <= i < name.len() implies name[i] != '/' by {}
    lemma_after_last_push(path, '/', name);
    assert(slash + name =~= dot);
    assert(name.drop_last() =~= Seq::<char>::empty());
}

/// The extension of a file is what stands behind the last dot of its name. A name
/// without a dot, or with none but at its beginning, has no extension.
pub proof fn law_extension(dir: Seq<char>, stem: Seq<char>, ext: Seq<char>)
    requires
        !stem.contains('/'),
        !ext.contains('/'),
        !ext.contains('.'),
    ensures
        stem.len() > 0 && stem.push('.') + ext != seq!['.', '.'] ==> {
            &&& extension_of(stem.push('.') + ext) == Some(ext)
            &&& extension_of(dir.push('/') + (stem.push('.') + ext)) == Some(ext)
        },
        ext.len() > 0 ==> {
            &&& extension_of(ext) is None
            &&& extension_of(dir.push('/') + ext) is None
            &&& extension_of(seq!['.'] + ext) is None
            &&& extension_of(dir.push('/') + (seq!['.'] + ext)) is None
        },
{
    let base = stem.push('.') + ext;
    assert forall|i: int| 0 <= i < base.len() implies base[i] != '/' by {
        if i < stem.len() {
            assert(stem[i] == base[i]);
        } else if i > stem.len() {
            assert(ext[i - stem.len() - 1] == base[i]);
        }
    }
    if stem.len() > 0 && base != seq!['.', '.'] {
        assert(base.len() >= 2);
        law_file_name(dir, base);
        lemma_after_last_push(stem, '.', ext);
        assert(base[stem.len() as int] == '.');
    }
    if ext.len() > 0 {
        assert(ext[0] != '.');
        law_file_name(dir, ext);
        let none = Seq::<char>::empty();
        let hidden = seq!['.'] + ext;
        assert(none.push('.') + ext =~= hidden);
        assert forall|i: int| 0 <= i < hidden.len() implies hidden[i] != '/' by {
            if i > 0 {
                assert(ext[i - 1] == hidden[i]);
            }
        }
        assert(hidden[1] == ext[0]);
        law_file_name(dir, hidden);
        lemma_after_last_push(none, '.', ext);
    }
}

/// On a path that every platform reads alike, the temporary file gets the extension
/// of the file name behind a dot, whole and whatever leads to the file, and `.wav`
/// where there is no file name or no extension.
pub proof fn law_suffix(dir: Seq<char>, stem: Seq<char>, ext: Seq<char>, suffix: Seq<char>)
    requires
        !stem.contains('/'),
        !ext.contains('/'),
        !ext.contains('.'),
        !dir.contains('\\') && !stem.contains('\\') && !ext.contains('\\'),
        dir.len() >= 2,
        dir[1] != ':',
        dir[0] != '/' || dir[1] != '/',
    ensures
        is_suffix_for(None, suffix) ==> suffix == ".wav"@,
        stem.len() > 0 && stem.push('.') + ext != seq!['.', '.'] && is_suffix_for(
            Some(dir.push('/') + (stem.push('.') + ext)),
            suffix,
        ) ==> suffix == seq!['.'] + ext,
        ext.len() > 0 && is_suffix_for(Some(dir.push('/') + ext), suffix) ==> suffix == ".wav"@,
{
    law_extension(dir, stem, ext);
    let long = dir.push('/') + (stem.push('.') + ext);
    let short = dir.push('/') + ext;
    assert forall|i: int| 0 <= i < long.len() implies long[i] != '\\' by {
        let n = dir.len() as int;
        let m = stem.len() as int;
        if i < n {
            assert(dir[i] == long[i]);
        } else if n < i < n + 1 + m {
            assert(stem[i - n - 1] == long[i]);
        } else if i > n + 1 + m {
            assert(ext[i - n - m - 2] == long[i]);
        }
    }
    assert forall|i: int| 0 <= i < short.len() implies short[i] != '\\' by {
        let n = dir.len() as int;
        if i < n {
            assert(dir[i] == short[i]);
        } else if n < i {
            assert(ext[i - n - 1] == short[i]);
        }
    }
    assert(long[0] == dir[0] && long[1] == dir[1]);
    assert(short[0] == dir[0] && short[1] == dir[1]);
    assert(is_portable_path(long));
    assert(is_portable_path(short));
}

/// The same for a file name that nothing leads to.
pub proof fn law_suffix_of_name(stem: Seq<char>, ext: Seq<char>, suffix: Seq<char>)
    requires
        !stem.contains('/') && !stem.contains('\\'),
        !ext.contains('/') && !ext.contains('\\'),
        !ext.contains('.'),
        stem.len() > 0,
        stem.len() >= 2 ==> stem[1] != ':',
        stem.push('.') + ext != seq!['.', '.'],
        is_suffix_for(Some(stem.push('.') + ext), suffix),
    ensures
        suffix == seq!['.'] + ext,
{
    law_extension(Seq::empty(), stem, ext);
    let name = stem.push('.') + ext;
    assert forall|i: int| 0 <= i < name.len() implies name[i] != '\\' by {
        if i < stem.len() {
            assert(stem[i] == name[i]);
        } else if i > stem.len() {
            assert(ext[i - stem.len() - 1] == name[i]);
        }
    }
    assert(name[0] == stem[0]);
    assert(stem[0] != '/');
    assert(is_portable_path(name));
}

proof fn lemma_base_push(s: Seq<char>, sep: char, rest: Seq<char>)
    requires
        sep == '/' || sep == '\\' || sep == ':',
        forall|i: int|
            0 <= i < rest.len() ==> (#[trigger] rest[i]) != '/' && rest[i] != '\\' && rest[i]
                != ':',
    ensures
        base_of(s.push(sep) + rest) == rest,
    decreases rest.len(),
{
    if rest.len() == 0 {
        assert(s.push(sep) + rest =~= s.push(sep));
        assert(base_of(s.push(sep)) =~= rest);
    } else {
        let less = rest.drop_last();
        assert forall|i: int| 0 <= i < less.len() implies (#[trigger] less[i]) != '/' && less[i]
            != '\\' && less[i] != ':' by {
            assert(rest[i] == less[i]);
        }
        assert(rest[rest.len() - 1] == rest.last());
        lemma_base_push(s, sep, less);
        assert((s.push(sep) + rest).drop_last() =~= s.push(sep) + less);
        assert(base_of(s.push(sep) + rest) =~= rest);
    }
}

/// An extension at the end of a name is kept on every platform, whatever separators
/// lead to it: a slash, a backslash or the colon of a drive.
pub proof fn law_suffix_behind_separator(
    dir: Seq<char>,
    sep: char,
    stem: Seq<char>,
    ext: Seq<char>,
    suffix: Seq<char>,
)
    requires
        sep == '/' || sep == '\\' || sep == ':',
        forall|i: int|
            0 <= i < stem.len() ==> (#[trigger] stem[i]) != '/' && stem[i] != '\\' && stem[i]
                != ':',
        forall|i: int|
            0 <= i < ext.len() ==> (#[trigger] ext[i]) != '/' && ext[i] != '\\' && ext[i] != ':'
                && ext[i] != '.',
        stem.len() > 0,
        stem.push('.') + ext != seq!['.', '.'],
        dir.len() >= 1,
        dir[0] != '/' && dir[0] != '\\',
        is_suffix_for(Some(dir.push(sep) + (stem.push('.') + ext)), suffix),
    ensures
        suffix == seq!['.'] + ext,
{
    let base = stem.push('.') + ext;
    let name = dir.push(sep) + base;
    assert forall|i: int| 0 <= i < base.len() implies (#[trigger] base[i]) != '/' && base[i]
        != '\\' && base[i] != ':' by {
        if i < stem.len() {
            assert(stem[i] == base[i]);
        } else if i > stem.len() {
            assert(ext[i - stem.len() - 1] == base[i]);
        }
    }
    lemma_base_push(dir, sep, base);
    lemma_after_last_push(stem, '.', ext);
    assert(base[stem.len() as int] == '.');
    assert(name[0] == dir[0]);
    assert(has_plain_extension(name));
}

/// Whatever path an upload is sent under, if every platform reads it alike, the
/// temporary file gets its extension behind a dot, and `.wav` where it has none.
pub proof fn law_suffix_is_extension(name: Seq<char>, suffix: Seq<char>)
    requires
        forall|i: int| 0 <= i < name.len() ==> #[trigger] name[i] != '\\',
        name.len() >= 2 ==> name[1] != ':' && (name[0] != '/' || name[1] != '/'),
        is_suffix_for(Some(name), suffix),
    ensures
        extension_of(name) matches Some(ext) ==> suffix == seq!['.'] + ext,
        extension_of(name) is None ==> suffix == ".wav"@,
{
    assert(is_portable_path(name));
}

}
