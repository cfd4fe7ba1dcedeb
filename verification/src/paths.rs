//! Path-shaped string logic: the final path component, the extension rule
//! for WAV files, and pre-batch validation with its messages.

use vstd::prelude::*;

verus! {

/// The final path component: the characters after the last `/`, the whole
/// string when it has none, and empty when it ends in `/`.
pub open spec fn spec_file_name(s: Seq<char>) -> Seq<char>
    decreases s.len(),
{
    if s.len() == 0 {
        s
    } else if s.last() == '/' {
        Seq::empty()
    } else {
        spec_file_name(s.drop_last()).push(s.last())
    }
}

/// The extension of a file name: the characters after the last `.`, provided
/// that dot is not the leading character; a name without such a dot (or a
/// hidden file like `.wav` itself) has none.
pub open spec fn spec_extension(name: Seq<char>) -> Option<Seq<char>>
    decreases name.len(),
{
    if name.len() == 0 {
        None
    } else if name.last() == '.' {
        if name.len() >= 2 {
            Some(Seq::empty())
        } else {
            None
        }
    } else {
        match spec_extension(name.drop_last()) {
            Some(e) => Some(e.push(name.last())),
            None => None,
        }
    }
}

/// A path names a WAV file when the extension of its final component is
/// exactly `wav` (case-sensitive).
pub open spec fn spec_is_wav(path: Seq<char>) -> bool {
    spec_extension(spec_file_name(path)) == Some(seq!['w', 'a', 'v'])
}

/// The final path component, as `spec_file_name` describes it.
pub fn file_name_of(path: &str) -> (name: String)
    ensures
        name@ == spec_file_name(path@),
{
    let len = path.unicode_len();
    let mut cut: usize = 0;
    let mut i: usize = 0;
    proof {
        assert(path@.subrange(0, 0) =~= Seq::<char>::empty());
    }
    while i < len
        invariant
            cut <= i <= len,
            len == path@.len(),
            spec_file_name(path@.subrange(0, i as int)) == path@.subrange(cut as int, i as int),
        decreases len - i,
    {
        let c = path.get_char(i);
        proof {
            let pre = path@.subrange(0, i as int);
            let post = path@.subrange(0, i as int + 1);
            assert(post.drop_last() =~= pre);
            assert(post.last() == path@[i as int]);
            if c == '/' {
                assert(path@.subrange(i as int + 1, i as int + 1) =~= Seq::<char>::empty());
            } else {
                assert(path@.subrange(cut as int, i as int).push(path@[i as int])
                    =~= path@.subrange(cut as int, i as int + 1));
            }
        }
        if c == '/' {
            cut = i + 1;
        }
        i = i + 1;
    }
    proof {
        assert(path@.subrange(0, len as int) =~= path@);
    }
    let name = path.substring_char(cut, len);
    String::from_str(name)
}

/// Whether the path's final component carries the exact extension `wav`.
pub fn has_wav_extension(path: &str) -> (b: bool)
    ensures
        b == spec_is_wav(path@),
{
    let name_string = file_name_of(path);
    let name = name_string.as_str();
    let len = name.unicode_len();
    let mut dot: usize = 0;
    let mut has_dot: bool = false;
    let mut i: usize = 0;
    proof {
        assert(name@.subrange(0, 0) =~= Seq::<char>::empty());
    }
    while i < len
        invariant
            i <= len,
            len == name@.len(),
            has_dot ==> dot < i && name@[dot as int] == '.',
            ({
                let e = spec_extension(name@.subrange(0, i as int));
                if has_dot && dot >= 1 {
                    e == Some(name@.subrange(dot as int + 1, i as int))
                } else {
                    e is None
                }
            }),
        decreases len - i,
    {
        let c = name.get_char(i);
        proof {
            let pre = name@.subrange(0, i as int);
            let post = name@.subrange(0, i as int + 1);
            assert(post.drop_last() =~= pre);
            assert(post.last() == name@[i as int]);
            if c == '.' {
                assert(name@.subrange(i as int + 1, i as int + 1) =~= Seq::<char>::empty());
            } else if has_dot && dot >= 1 {
                assert(name@.subrange(dot as int + 1, i as int).push(name@[i as int])
                    =~= name@.subrange(dot as int + 1, i as int + 1));
            }
        }
        if c == '.' {
            dot = i;
            has_dot = true;
        }
        i = i + 1;
    }
    proof {
        assert(name@.subrange(0, len as int) =~= name@);
    }
    if !(has_dot && dot >= 1) {
        return false;
    }
    let ext_len = len - dot - 1;
    if ext_len != 3 {
        proof {
            assert(name@.subrange(dot as int + 1, len as int).len() == 3 ==> ext_len == 3);
        }
        return false;
    }
    let c0 = name.get_char(dot + 1);
    let c1 = name.get_char(dot + 2);
    let c2 = name.get_char(dot + 3);
    let b = c0 == 'w' && c1 == 'a' && c2 == 'v';
    proof {
        let ext = name@.subrange(dot as int + 1, len as int);
        let wav = seq!['w', 'a', 'v'];
        if b {
            assert(ext =~= wav);
        } else {
            assert(ext != wav) by {
                if ext == wav {
                    assert(ext[0] == 'w' && ext[1] == 'a' && ext[2] == 'v');
                }
            }
        }
    }
    b
}

/// Whether a path passes pre-batch validation: it must exist on disk (the
/// caller reports this as a flag) and carry the `wav` extension.
pub open spec fn spec_path_valid(path: Seq<char>, exists: bool) -> bool {
    exists && spec_is_wav(path)
}

/// The complaint validation raises for an invalid path: a missing file is
/// reported before a wrong extension.
pub open spec fn spec_validation_message(path: Seq<char>, exists: bool) -> Seq<char> {
    if !exists {
        "The specified file does not exist."@
    } else {
        "The specified file is not a WAV file."@
    }
}

/// Validate one path against the flag saying whether it exists on disk:
/// existing WAV paths pass, anything else is refused with a message.
pub fn validate_audio_path(path: &str, exists: bool) -> (r: Result<(), String>)
    ensures
        r is Ok <==> spec_path_valid(path@, exists),
        r is Err ==> r->Err_0@ == spec_validation_message(path@, exists),
{
    if !exists {
        return Err(String::from_str("The specified file does not exist."));
    }
    if !has_wav_extension(path) {
        return Err(String::from_str("The specified file is not a WAV file."));
    }
    Ok(())
}

/// Validate a whole batch eagerly: the first invalid path stops the run with
/// a message naming that path; only a batch of all-valid paths passes.
pub fn validate_paths(paths: &Vec<String>, exists_flags: &Vec<bool>) -> (r: Result<(), String>)
    requires
        exists_flags@.len() == paths@.len(),
    ensures
        r is Ok <==> (forall|i: int|
            0 <= i < paths@.len() ==> spec_path_valid(#[trigger] paths@[i]@, exists_flags@[i])),
        r is Err ==> (exists|i: int|
            {
                &&& 0 <= i < paths@.len()
                &&& !spec_path_valid(#[trigger] paths@[i]@, exists_flags@[i])
                &&& (forall|j: int|
                    0 <= j < i ==> spec_path_valid(#[trigger] paths@[j]@, exists_flags@[j]))
                &&& r->Err_0@ == "Error with file "@ + paths@[i]@ + ": "@
                    + spec_validation_message(paths@[i]@, exists_flags@[i])
            }),
{
    let mut i: usize = 0;
    while i < paths.len()
        invariant
            i <= paths@.len(),
            exists_flags@.len() == paths@.len(),
            forall|j: int| 0 <= j < i ==> spec_path_valid(#[trigger] paths@[j]@, exists_flags@[j]),
        decreases paths@.len() - i,
    {
        let path = &paths[i];
        match validate_audio_path(path.as_str(), exists_flags[i]) {
            Ok(()) => {},
            Err(cause) => {
                let m = String::from_str("Error with file ").concat(path.as_str()).concat(": ")
                    .concat(cause.as_str());
                return Err(m);
            },
        }
        i = i + 1;
    }
    Ok(())
}

} // verus!
