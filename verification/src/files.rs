//! Pure file-name logic around the delivery flow: picking the downloaded
//! artifact out of a directory listing, and naming the trimmed copy of a
//! file. The caller reads the directory and touches the filesystem; the
//! functions here only decide on names.

use vstd::prelude::*;
use vstd::string::StrSliceExecFns;
use vstd::string::StringExecFns;

use crate::text::{is_prefix, lemma_lex_le_total, lemma_lex_le_trans, lex_le, str_le,
    str_starts_with};

verus! {

/// No entry of the listing starts with the wanted prefix.
#[derive(Debug, Clone, Copy, PartialEq, Eq, Structural)]
pub struct NoFileFound;

/// Some entry of `files` starts with `name`.
pub open spec fn some_match(files: Seq<Seq<char>>, name: Seq<char>) -> bool {
    exists|i: int| 0 <= i < files.len() && is_prefix(name, #[trigger] files[i])
}

/// Picks the delivered artifact out of a directory listing: the
/// lexicographically least entry that starts with `name`. Fails exactly
/// when no entry does.
pub fn find_file_pat(files: &Vec<String>, name: &String) -> (r: Result<String, NoFileFound>)
    ensures
        match r {
            Ok(f) => {
                &&& some_match(files.deep_view(), name@)
                &&& files.deep_view().contains(f@)
                &&& is_prefix(name@, f@)
                &&& forall|i: int|
                    0 <= i < files.deep_view().len() && is_prefix(
                        name@,
                        #[trigger] files.deep_view()[i],
                    ) ==> lex_le(f@, files.deep_view()[i])
            },
            Err(_) => !some_match(files.deep_view(), name@),
        },
{
    let ghost dv = files.deep_view();
    let n: usize = files.len();
    let mut best: Option<String> = None;
    let mut i: usize = 0;
    while i < n
        invariant
            n == files@.len(),
            dv == files.deep_view(),
            i <= n,
            match best {
                None => forall|j: int| 0 <= j < i ==> !is_prefix(name@, #[trigger] dv[j]),
                Some(b) => {
                    &&& dv.contains(b@)
                    &&& is_prefix(name@, b@)
                    &&& forall|j: int|
                        0 <= j < i && is_prefix(name@, #[trigger] dv[j]) ==> lex_le(b@, dv[j])
                },
            },
        decreases n - i,
    {
        if str_starts_with(files[i].as_str(), name.as_str()) {
            let replace = match &best {
                None => true,
                Some(b) => str_le(files[i].as_str(), b.as_str()),
            };
            if replace {
                proof {
                    if best is Some {
                        let b = best->0;
                        assert forall|j: int|
                            0 <= j < i + 1 && is_prefix(name@, #[trigger] dv[j]) implies lex_le(
                            dv[i as int],
                            dv[j],
                        ) by {
                            if j < i {
                                lemma_lex_le_trans(dv[i as int], b@, dv[j]);
                            } else {
                                lemma_lex_le_total(dv[i as int], dv[i as int]);
                            }
                        }
                    } else {
                        lemma_lex_le_total(dv[i as int], dv[i as int]);
                    }
                    assert(dv[i as int] == files@[i as int]@);
                }
                best = Some(files[i].clone());
            } else {
                proof {
                    let b = best->0;
                    lemma_lex_le_total(dv[i as int], b@);
                }
            }
        }
        i += 1;
    }
    match best {
        Some(b) => {
            proof {
                let j = choose|j: int| 0 <= j < dv.len() && dv[j] == b@;
                assert(is_prefix(name@, dv[j]));
            }
            Ok(b)
        },
        None => Err(NoFileFound),
    }
}

/// The last index at which `c` occurs.
pub open spec fn rfind(s: Seq<char>, c: char) -> Option<int>
    decreases s.len(),
{
    if s.len() == 0 {
        None
    } else if s.last() == c {
        Some(s.len() - 1)
    } else {
        rfind(s.drop_last(), c)
    }
}

fn rfind_char(s: &str, c: char) -> (r: Option<usize>)
    ensures
        match r {
            Some(i) => i < s@.len() && rfind(s@, c) == Some(i as int),
            None => rfind(s@, c) is None,
        },
{
    let n: usize = s.unicode_len();
    let mut i: usize = n;
    proof {
        assert(s@.take(n as int) =~= s@);
    }
    while i > 0
        invariant
            n == s@.len(),
            i <= n,
            rfind(s@, c) == rfind(s@.take(i as int), c),
        decreases i,
    {
        let j = i - 1;
        if s.get_char(j) == c {
            proof {
                assert(s@.take(i as int).last() == s@[j as int]);
            }
            return Some(j);
        }
        proof {
            assert(s@.take(i as int).last() == s@[j as int]);
            assert(s@.take(i as int).drop_last() =~= s@.take(j as int));
        }
        i = j;
    }
    None
}

/// Why no trimmed-copy name can be formed.
#[derive(Debug, Clone, Copy, PartialEq, Eq, Structural)]
pub enum OutFileError {
    /// The path has no file-name part after its last separator.
    EmptyFileName,
    /// The file name has no extension after a nonempty stem.
    NoExtension,
}

/// Where the file-name part of a path begins: right after the last `/`.
pub open spec fn dir_split(s: Seq<char>) -> int {
    match rfind(s, '/') {
        Some(k) => k + 1,
        None => 0,
    }
}

/// A trimmed-copy name can be formed: the file-name part is nonempty and
/// carries an extension after a nonempty stem.
pub open spec fn out_file_ok(s: Seq<char>) -> bool {
    let fname = s.skip(dir_split(s));
    fname.len() > 0 && match rfind(fname, '.') {
        Some(p) => p >= 1,
        None => false,
    }
}

/// The name of the trimmed copy: the stem, `.cut.`, then the extension,
/// under the same directory part.
pub open spec fn out_file_name(s: Seq<char>) -> Seq<char>
    recommends
        out_file_ok(s),
{
    let k = dir_split(s);
    let fname = s.skip(k);
    let p = rfind(fname, '.')->0;
    s.take(k) + fname.take(p) + ".cut."@ + fname.skip(p + 1)
}

/// Invents the output file name for the trimmed copy of `filepath`.
pub fn out_file(filepath: &String) -> (r: Result<String, OutFileError>)
    ensures
        match r {
            Ok(o) => out_file_ok(filepath@) && o@ == out_file_name(filepath@),
            Err(e) => !out_file_ok(filepath@) && e == (if filepath@.skip(
                dir_split(filepath@),
            ).len() == 0 {
                OutFileError::EmptyFileName
            } else {
                OutFileError::NoExtension
            }),
        },
{
    let n: usize = filepath.as_str().unicode_len();
    let k: usize = match rfind_char(filepath.as_str(), '/') {
        Some(i) => i + 1,
        None => 0,
    };
    if k == n {
        proof {
            assert(filepath@.skip(k as int).len() == 0);
        }
        return Err(OutFileError::EmptyFileName);
    }
    let fname = filepath.as_str().substring_char(k, n);
    proof {
        assert(fname@ =~= filepath@.skip(k as int));
    }
    let fn_len: usize = fname.unicode_len();
    let p: usize = match rfind_char(fname, '.') {
        Some(p) => p,
        None => {
            return Err(OutFileError::NoExtension);
        },
    };
    if p == 0 {
        return Err(OutFileError::NoExtension);
    }
    let mut out = String::from_str(filepath.as_str().substring_char(0, k));
    out.append(fname.substring_char(0, p));
    out.append(".cut.");
    out.append(fname.substring_char(p + 1, fn_len));
    proof {
        assert(filepath@.take(k as int) =~= filepath@.subrange(0, k as int));
        assert(fname@.take(p as int) =~= fname@.subrange(0, p as int));
        assert(fname@.skip(p + 1) =~= fname@.subrange(p + 1, fn_len as int));
    }
    Ok(out)
}

} // verus!
