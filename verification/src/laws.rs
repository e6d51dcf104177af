use vstd::prelude::*;

use crate::names::{digit_char, generated_name};

verus! {

/// A generated resource name is its prefix, then exactly three decimal
/// digit characters, then `.txt` - whatever number the generator drew.
pub proof fn lemma_generated_name_shape(prefix: Seq<char>, n: nat)
    ensures
        generated_name(prefix, n).len() == prefix.len() + 7,
        generated_name(prefix, n).subrange(0, prefix.len() as int) == prefix,
        forall|k: int|
            prefix.len() <= k < prefix.len() + 3 ==> '0' <= #[trigger] generated_name(prefix, n)[k]
                <= '9',
        generated_name(prefix, n).subrange(prefix.len() as int + 3, prefix.len() as int + 7)
            == ".txt"@,
{
    reveal_strlit(".txt");
    let name = generated_name(prefix, n);
    assert(name.subrange(0, prefix.len() as int) =~= prefix);
    assert forall|k: int|
        prefix.len() <= k < prefix.len() + 3 implies '0' <= #[trigger] name[k] <= '9' by {
        let d: nat = if k == prefix.len() {
            (n / 100) % 10
        } else if k == prefix.len() + 1 {
            (n / 10) % 10
        } else {
            n % 10
        };
        assert(name[k] == digit_char(d));
    }
    assert(name.subrange(prefix.len() as int + 3, prefix.len() as int + 7) =~= ".txt"@);
}

/// Uploading bytes under a name and then reading that name round-trips:
/// the read is owed success, and it yields exactly the uploaded bytes.
/// `m` is the store view before the upload; `upload_specified_file`
/// ensures the view afterwards is `m.insert(name, contents)`, of which
/// `download_file` then reads `contents` back.
pub proof fn lemma_upload_then_download(m: Map<Seq<char>, Seq<u8>>, name: Seq<char>, contents: Seq<u8>)
    ensures
        m.insert(name, contents).dom().contains(name),
        m.insert(name, contents)[name] == contents,
{
}

/// A second upload to the same name overwrites the first whole: reading
/// the name afterwards yields only the second body, and the store is as
/// if the first upload had never happened - no merge of the two.
pub proof fn lemma_upload_overwrites(
    m: Map<Seq<char>, Seq<u8>>,
    name: Seq<char>,
    first: Seq<u8>,
    second: Seq<u8>,
)
    ensures
        m.insert(name, first).insert(name, second)[name] == second,
        m.insert(name, first).insert(name, second) =~= m.insert(name, second),
{
}

/// Deleting a name right after a successful upload of it is owed success,
/// and a read of the name afterwards is owed the not-found outcome.
pub proof fn lemma_delete_after_upload(
    m: Map<Seq<char>, Seq<u8>>,
    name: Seq<char>,
    contents: Seq<u8>,
)
    ensures
        m.insert(name, contents).dom().contains(name),
        !m.insert(name, contents).remove(name).dom().contains(name),
        forall|other: Seq<char>|
            other != name ==> m.insert(name, contents).remove(name).dom().contains(other)
                == m.dom().contains(other),
{
}

/// Writes move whole buffers: however the store serialized two racing
/// uploads to one name, the name afterwards holds one of the two bodies
/// in full - never a byte-level interleaving of both.
pub proof fn lemma_no_interleaving(
    m: Map<Seq<char>, Seq<u8>>,
    name: Seq<char>,
    first: Seq<u8>,
    second: Seq<u8>,
)
    ensures
        m.insert(name, first).insert(name, second)[name] == first
            || m.insert(name, first).insert(name, second)[name] == second,
        m.insert(name, second).insert(name, first)[name] == first
            || m.insert(name, second).insert(name, first)[name] == second,
{
}

} // verus!
