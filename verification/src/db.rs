//! Where the database is.
use crate::paths::join;
use vstd::prelude::*;

verus! {

/// Default db location: `lifelog/lifelog.db` in the platform's data directory
/// (on macOS `~/Library/Application Support`), so the db sits next to the other
/// app data the OS already backs up.
pub fn default_path(data_dir: &[u8]) -> (path: Vec<u8>)
    ensures
        path@ == crate::paths::joined(
            crate::paths::joined(data_dir@, vstd::utf8::encode_utf8("lifelog"@)),
            vstd::utf8::encode_utf8("lifelog.db"@),
        ),
{
    join(join(data_dir, "lifelog").as_slice(), "lifelog.db")
}

/// The database stands in `lifelog/lifelog.db` below the data directory, whatever
/// that is.
pub proof fn law_the_database_lies_below_the_data_directory(data_dir: &[u8], path: Vec<u8>)
    requires
        call_ensures(default_path, (data_dir,), path),
    ensures
        crate::paths::is_below(path@, data_dir@, "lifelog/lifelog.db"@),
{
    reveal_strlit("lifelog");
    reveal_strlit("lifelog.db");
    reveal_strlit("lifelog/lifelog.db");
    let folder = crate::paths::joined(data_dir@, vstd::utf8::encode_utf8("lifelog"@));
    crate::paths::lemma_joined_is_below(data_dir@, "lifelog"@);
    crate::paths::lemma_joined_is_below(folder, "lifelog.db"@);
    assert("lifelog"@[6] == 'g');
    assert(folder.last() == 'g' as u8);
    assert(path@.take(data_dir@.len() as int) =~= folder.take(data_dir@.len() as int));
    let slash: int = if data_dir@.len() == 0 || data_dir@.last() == 0x2f {
        0
    } else {
        1
    };
    let start = data_dir@.len() + slash;
    assert forall|i: int| 0 <= i < "lifelog/lifelog.db"@.len() implies path@[start + i]
        == #[trigger] "lifelog/lifelog.db"@[i] as u8 by {
        if i < 7 {
            assert(path@[start + i] == path@.take(folder.len() as int)[start + i]);
            assert(folder[start + i] == "lifelog"@[i] as u8);
        } else if i > 7 {
            assert(path@[folder.len() + 1 + (i - 8)] == "lifelog.db"@[i - 8] as u8);
        }
    }
    if slash == 1 {
        let at = data_dir@.len() as int;
        assert(path@[at] == path@.take(folder.len() as int)[at]);
    }
}

} // verus!
