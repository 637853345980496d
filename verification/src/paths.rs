//! File paths, as the bytes that a Unix system holds them in.
use vstd::prelude::*;

verus! {

/// The separator between the parts of a path.
pub const SEPARATOR: u8 = 0x2f;

/// The path of `name` seen from `base`: an absolute name stands for itself; any
/// other one comes after the base, behind a separator unless the base is empty
/// or ends in one.
pub open spec fn joined(base: Seq<u8>, name: Seq<u8>) -> Seq<u8> {
    if name.len() > 0 && name[0] == SEPARATOR {
        name
    } else if base.len() == 0 || base.last() == SEPARATOR {
        base + name
    } else {
        base.push(SEPARATOR) + name
    }
}

/// Puts the bytes of `more` behind those of `bytes`.
pub fn extend(bytes: &mut Vec<u8>, more: &[u8])
    ensures
        final(bytes)@ == old(bytes)@ + more@,
{
    let ghost start = bytes@;
    let mut i: usize = 0;
    while i < more.len()
        invariant
            i <= more.len(),
            bytes@ == start + more@.take(i as int),
        decreases more.len() - i,
    {
        bytes.push(more[i]);
        i = i + 1;
        assert(bytes@ =~= start + more@.take(i as int));
    }
    assert(more@.take(i as int) =~= more@);
}

/// Joins a name to a base directory.
pub fn join(base: &[u8], name: &str) -> (path: Vec<u8>)
    ensures
        path@ == joined(base@, vstd::utf8::encode_utf8(name@)),
{
    let bytes = name.as_bytes();
    let mut path: Vec<u8> = Vec::new();
    if bytes.len() == 0 || bytes[0] != SEPARATOR {
        extend(&mut path, base);
        if base.len() > 0 && base[base.len() - 1] != SEPARATOR {
            path.push(SEPARATOR);
        }
    }
    extend(&mut path, bytes);
    assert(path@ =~= joined(base@, vstd::utf8::encode_utf8(name@)));
    path
}

/// A name that is absolute, that is, one that begins with a slash, is joined to
/// nothing. Any other name ends the path and the base starts it; between them
/// stands one slash, but none where the base is empty or ends in one.
pub proof fn law_a_name_comes_behind_its_base(base: &[u8], name: &str, path: Vec<u8>)
    requires
        call_ensures(join, (base, name), path),
    ensures
        ({
            let bytes = vstd::utf8::encode_utf8(name@);
            let slash: int = if base@.len() == 0 || base@.last() == 0x2f {
                0
            } else {
                1
            };
            if bytes.len() > 0 && bytes[0] == 0x2f {
                path@ == bytes
            } else {
                &&& path@.len() == base@.len() + slash + bytes.len()
                &&& path@.take(base@.len() as int) == base@
                &&& slash == 1 ==> path@[base@.len() as int] == 0x2f
                &&& path@.skip(base@.len() + slash) == bytes
            }
        }),
{
    let bytes = vstd::utf8::encode_utf8(name@);
    if !(bytes.len() > 0 && bytes[0] == 0x2f) {
        let slash: int = if base@.len() == 0 || base@.last() == 0x2f {
            0
        } else {
            1
        };
        assert(path@.take(base@.len() as int) =~= base@);
        assert(path@.skip(base@.len() + slash) =~= bytes);
    }
}

/// Whether `path` is `name`, in ASCII, below the directory `dir`: the directory's
/// bytes, a slash unless they are none or end in one, and the name.
pub open spec fn is_below(path: Seq<u8>, dir: Seq<u8>, name: Seq<char>) -> bool {
    let slash: int = if dir.len() == 0 || dir.last() == 0x2f {
        0
    } else {
        1
    };
    &&& path.len() == dir.len() + slash + name.len()
    &&& path.take(dir.len() as int) == dir
    &&& slash == 1 ==> path[dir.len() as int] == 0x2f
    &&& forall|i: int|
        0 <= i < name.len() ==> path[dir.len() + slash + i] == #[trigger] name[i] as u8
}

/// A name in ASCII that does not begin with a slash is joined below its base.
pub proof fn lemma_joined_is_below(dir: Seq<u8>, name: Seq<char>)
    requires
        vstd::utf8::is_ascii_chars(name),
        name.len() > 0,
        name[0] != '/',
    ensures
        is_below(joined(dir, vstd::utf8::encode_utf8(name)), dir, name),
{
    vstd::utf8::is_ascii_chars_encode_utf8(name);
    vstd::utf8::is_ascii_chars_nat_bound(name);
    let bytes = vstd::utf8::encode_utf8(name);
    assert(bytes[0] == name[0] as u8);
    assert(bytes[0] != SEPARATOR);
    assert(joined(dir, bytes).take(dir.len() as int) =~= dir);
}

} // verus!
