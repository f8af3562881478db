use vstd::prelude::*;
use vstd::string::StrSliceExecFns;
use vstd::string::StringExecFns;

use crate::chars::lower_chars;
use crate::chars::lower_text;
use crate::chars::str_eq;
use crate::errors::InvoiceError;

verus! {

/// The suffix of `s` after the last occurrence of `c`; all of `s` when
/// `c` does not occur.
pub open spec fn after_last(s: Seq<char>, c: char) -> Seq<char>
    decreases s.len(),
{
    if s.len() == 0 {
        s
    } else if s.last() == c {
        Seq::empty()
    } else {
        after_last(s.drop_last(), c) + seq![s.last()]
    }
}

/// The path with trailing separators and trailing `.` components
/// removed, as the standard path model ignores them: `some/dir/`,
/// `some/dir/.` and `some/dir//` all end in the component `dir`.
pub open spec fn strip_path_tail(s: Seq<char>) -> Seq<char>
    decreases s.len(),
{
    if s.len() > 0 && s.last() == '/' {
        strip_path_tail(s.drop_last())
    } else if s.len() == 1 && s.last() == '.' {
        strip_path_tail(s.drop_last())
    } else if s.len() >= 2 && s.last() == '.' && s[s.len() - 2] == '/' {
        strip_path_tail(s.drop_last())
    } else {
        s
    }
}

/// The file name component of a path, as the standard path model gives
/// it: the part after the last `/`, trailing separators and `.`
/// components ignored; empty when nothing is left, and empty for a final
/// parent-directory component `..`, which is no file name.
pub open spec fn file_name_of(path: Seq<char>) -> Seq<char> {
    let comp = after_last(strip_path_tail(path), '/');
    if comp == ".."@ {
        Seq::empty()
    } else {
        comp
    }
}

/// Whether a file name has a dot anywhere past its first character, that
/// is, an extension. A leading dot alone (a hidden file) is none.
pub open spec fn has_extension_dot(name: Seq<char>) -> bool {
    exists|i: int| 1 <= i < name.len() && name[i] == '.'
}

/// The extension of a file name: the part after the last dot, where that
/// dot is not the leading character; `None` when there is no such dot.
pub open spec fn extension_of(name: Seq<char>) -> Option<Seq<char>> {
    if has_extension_dot(name) {
        Some(after_last(name, '.'))
    } else {
        None
    }
}

/// The best-guess MIME type that the extension lookup returns for a
/// (lowercased) extension.
pub uninterp spec fn mime_guess_of(ext: Seq<char>) -> Seq<char>;

/// The MIME type derived from a path: the lookup on its lowercased
/// extension, or the generic binary type when it has no extension.
pub open spec fn mime_of(path: Seq<char>) -> Seq<char> {
    match extension_of(file_name_of(path)) {
        Some(e) => mime_guess_of(lower_chars(e)),
        None => "application/octet-stream"@,
    }
}

/// Relies on mime_guess::from_ext and MimeGuess::first_or_octet_stream:
/// the best-guess MIME type for a file extension, a fixed table lookup on
/// the extension alone (application/octet-stream when the table has none).
#[verifier::external_body]
fn guess_mime(ext: &str) -> (r: String)
    ensures
        r@ == mime_guess_of(ext@),
{
    mime_guess::MimeGuess::from_ext(ext).first_or_octet_stream().to_string()
}

/// Returns the suffix of `s` after the last occurrence of `c`.
fn suffix_after_last(s: &str, c: char) -> (r: String)
    ensures
        r@ == after_last(s@, c),
{
    let n = s.unicode_len();
    let mut i: usize = n;
    proof {
        assert(s@.take(n as int) =~= s@);
        assert(after_last(s@, c) + s@.skip(n as int) =~= after_last(s@, c));
    }
    while i > 0 && s.get_char(i - 1) != c
        invariant
            n == s@.len(),
            i <= n,
            after_last(s@, c) == after_last(s@.take(i as int), c) + s@.skip(i as int),
        decreases i,
    {
        proof {
            assert(s@.take(i as int).last() == s@[i - 1]);
            assert(s@.take(i as int).drop_last() =~= s@.take(i - 1));
            assert(after_last(s@.take(i - 1), c) + seq![s@[i - 1]] + s@.skip(i as int) =~= after_last(
                s@.take(i - 1),
                c,
            ) + s@.skip(i - 1));
        }
        i = i - 1;
    }
    proof {
        if i == 0 {
            assert(s@.take(0).len() == 0);
            assert(after_last(s@.take(0), c) + s@.skip(0) =~= s@);
        } else {
            assert(s@.take(i as int).last() == c);
            assert(after_last(s@.take(i as int), c) =~= Seq::<char>::empty());
            assert(after_last(s@.take(i as int), c) + s@.skip(i as int) =~= s@.skip(i as int));
        }
        assert(after_last(s@, c) == s@.skip(i as int));
    }
    let r = s.substring_char(i, n);
    proof {
        assert(r@ =~= s@.skip(i as int));
    }
    String::from_str(r)
}

/// Returns the part of `s` after the last `/` that stands strictly
/// before position `end`.
fn component_between(s: &str, end: usize) -> (r: String)
    requires
        end <= s@.len(),
    ensures
        r@ == after_last(s@.take(end as int), '/'),
{
    let ghost t = s@.take(end as int);
    let mut j: usize = end;
    proof {
        assert(t.take(end as int) =~= t);
        assert(after_last(t, '/') + t.skip(end as int) =~= after_last(t, '/'));
    }
    while j > 0 && s.get_char(j - 1) != '/'
        invariant
            end <= s@.len(),
            j <= end,
            t == s@.take(end as int),
            after_last(t, '/') == after_last(t.take(j as int), '/') + t.skip(j as int),
        decreases j,
    {
        proof {
            assert(t[j - 1] == s@[j - 1]);
            assert(t.take(j as int).last() == t[j - 1]);
            assert(t.take(j as int).drop_last() =~= t.take(j - 1));
            assert(after_last(t.take(j - 1), '/') + seq![t[j - 1]] + t.skip(j as int) =~= after_last(
                t.take(j - 1),
                '/',
            ) + t.skip(j - 1));
        }
        j = j - 1;
    }
    proof {
        if j == 0 {
            assert(t.take(0).len() == 0);
            assert(after_last(t.take(0), '/') + t.skip(0) =~= t);
        } else {
            assert(t[j - 1] == s@[j - 1]);
            assert(t.take(j as int).last() == t[j - 1]);
            assert(after_last(t.take(j as int), '/') =~= Seq::<char>::empty());
            assert(after_last(t.take(j as int), '/') + t.skip(j as int) =~= t.skip(j as int));
        }
        assert(after_last(t, '/') == t.skip(j as int));
        assert(t.skip(j as int) =~= s@.subrange(j as int, end as int));
    }
    let r = s.substring_char(j, end);
    proof {
        assert(r@ =~= s@.subrange(j as int, end as int));
    }
    String::from_str(r)
}

/// Returns the extension of a file name, as [`extension_of`] gives it.
fn extension_part(name: &str) -> (r: Option<String>)
    ensures
        match r {
            Some(e) => extension_of(name@) == Some(e@),
            None => extension_of(name@) is None,
        },
{
    let n = name.unicode_len();
    let mut i: usize = n;
    while i > 0 && name.get_char(i - 1) != '.'
        invariant
            n == name@.len(),
            i <= n,
            forall|k: int| i <= k < n ==> name@[k] != '.',
        decreases i,
    {
        i = i - 1;
    }
    if i <= 1 {
        proof {
            if i == 1 {
                assert(name@[0] != '.' || true);
            }
            assert(!has_extension_dot(name@));
        }
        None
    } else {
        proof {
            assert(name@[i - 1] == '.');
            assert(has_extension_dot(name@));
        }
        let tail = suffix_after_last(name, '.');
        proof {
            lemma_after_last_skip(name@, '.', i as int);
        }
        Some(tail)
    }
}

/// After the last occurrence of `c`, which sits at `pos - 1`, the suffix
/// is exactly `s.skip(pos)`.
proof fn lemma_after_last_skip(s: Seq<char>, c: char, pos: int)
    requires
        1 <= pos <= s.len(),
        s[pos - 1] == c,
        forall|k: int| pos <= k < s.len() ==> s[k] != c,
    ensures
        after_last(s, c) == s.skip(pos),
    decreases s.len(),
{
    if s.len() == pos {
        assert(s.last() == c);
        assert(after_last(s, c) =~= s.skip(pos));
    } else {
        assert(s.last() != c);
        lemma_after_last_skip(s.drop_last(), c, pos);
        assert(after_last(s.drop_last(), c) == s.drop_last().skip(pos));
        assert(s.drop_last().skip(pos) + seq![s.last()] =~= s.skip(pos));
    }
}

/// File classification: given a path, its file name (the final path
/// component, as [`file_name_of`] gives it), its lowercased extension if
/// it has one (ASCII lowering: the keywords compared downstream are
/// ASCII), and the best-guess MIME type; an error when the path has no
/// file name component.
pub fn extract_file_info(file_path: &str) -> (r: Result<
    (String, Option<String>, String),
    InvoiceError,
>)
    ensures
        match r {
            Ok(info) => {
                &&& file_name_of(file_path@).len() > 0
                &&& info.0@ == file_name_of(file_path@)
                &&& match extension_of(file_name_of(file_path@)) {
                    Some(e) => info.1 == Some(info.1.unwrap())
                        && info.1.unwrap()@ == lower_chars(e),
                    None => info.1 is None,
                }
                &&& info.2@ == mime_of(file_path@)
            },
            Err(e) => file_name_of(file_path@).len() == 0 && e is FileName,
        },
{
    let n = file_path.unicode_len();
    let mut i: usize = n;
    proof {
        assert(file_path@.take(n as int) =~= file_path@);
    }
    while i > 0 && (file_path.get_char(i - 1) == '/' || (file_path.get_char(i - 1) == '.' && (i
        == 1 || file_path.get_char(i - 2) == '/')))
        invariant
            n == file_path@.len(),
            i <= n,
            strip_path_tail(file_path@) == strip_path_tail(file_path@.take(i as int)),
        decreases i,
    {
        proof {
            let t = file_path@.take(i as int);
            assert(t.len() == i);
            assert(t.last() == file_path@[i - 1]);
            if i >= 2 {
                assert(t[i - 2] == file_path@[i - 2]);
            }
            assert(t.drop_last() =~= file_path@.take(i - 1));
        }
        i = i - 1;
    }
    proof {
        let t = file_path@.take(i as int);
        if i > 0 {
            assert(t.last() == file_path@[i - 1]);
            if i >= 2 {
                assert(t[i - 2] == file_path@[i - 2]);
            }
        }
        assert(strip_path_tail(t) == t);
    }
    let file_name = component_between(file_path, i);
    if file_name.as_str().unicode_len() == 0 || str_eq(file_name.as_str(), "..") {
        return Err(InvoiceError::FileName);
    }
    proof {
        assert(file_name@ == file_name_of(file_path@));
    }
    let extension = match extension_part(file_name.as_str()) {
        Some(e) => Some(lower_text(e.as_str())),
        None => None,
    };
    let mime_type = match &extension {
        Some(ext) => guess_mime(ext.as_str()),
        None => String::from_str("application/octet-stream"),
    };
    Ok((file_name, extension, mime_type))
}

} // verus!
