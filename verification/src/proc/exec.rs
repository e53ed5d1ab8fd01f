//! Start a user program: the address space of the task is cleared of what
//! belonged to the program before, and the program is looked up in the
//! archive of files.
use crate::defs::Mem;
use crate::fs::ustar::{FileHdr, UstarFile, spec_first_null};
use crate::mm::vmm::{VMArea, VMMan};
use vstd::prelude::*;
use vstd::string::StringSliceAdditionalSpecFns;

verus! {

/// Whether two strings of bytes are the same.
pub fn bytes_eq(a: &[u8], b: &[u8]) -> (r: bool)
    ensures
        r == (a@ == b@),
{
    if a.len() != b.len() {
        return false;
    }
    let mut i: usize = 0;
    while i < a.len()
        invariant
            0 <= i <= a.len() == b.len(),
            forall|j: int| 0 <= j < i ==> a@[j] == b@[j],
        decreases a.len() - i,
    {
        if a[i] != b[i] {
            return false;
        }
        i += 1;
    }
    assert(a@ =~= b@);
    true
}

/// The name in a header of the archive.
pub open spec fn spec_name(hdr: Seq<u8>) -> Seq<u8> {
    hdr.subrange(0, 100).subrange(0, spec_first_null(hdr.subrange(0, 100)))
}

/// The place of the first file with a name, if there is one.
pub open spec fn spec_find(files: Seq<UstarFile>, name: Seq<u8>) -> Option<int>
    decreases files.len(),
{
    if files.len() == 0 {
        None
    } else {
        match spec_find(files.drop_last(), name) {
            Some(i) => Some(i),
            None => if spec_name(files.last().hdr@) == name {
                Some(files.len() - 1)
            } else {
                None
            },
        }
    }
}

/// Look for the first file with a name. The name field of every header
/// must hold a string.
pub fn find_file(files: &[UstarFile], file_name: &str) -> (r: Option<usize>)
    requires
        forall|i: int|
            0 <= i < files@.len() ==> (#[trigger] files@[i]).hdr.wf() && FileHdr::spec_is_string(
                files@[i].hdr.spec_name_field(),
            ),
    ensures
        match r {
            Some(i) => spec_find(files@, file_name.spec_bytes()) == Some(i as int),
            None => spec_find(files@, file_name.spec_bytes()) is None,
        },
        r is Some ==> r->0 < files@.len() && spec_name(files@[r->0 as int].hdr@)
            == file_name.spec_bytes(),
{
    let mut i: usize = 0;
    assert(files@.subrange(0, 0) =~= Seq::<UstarFile>::empty());
    while i < files.len()
        invariant
            0 <= i <= files.len(),
            forall|j: int|
                0 <= j < files@.len() ==> (#[trigger] files@[j]).hdr.wf()
                    && FileHdr::spec_is_string(files@[j].hdr.spec_name_field()),
            spec_find(files@.subrange(0, i as int), file_name.spec_bytes()) is None,
        decreases files.len() - i,
    {
        proof {
            assert(files@.subrange(0, i as int + 1).drop_last() =~= files@.subrange(0, i as int));
            assert(files@.subrange(0, i as int + 1).last() == files@[i as int]);
        }
        if bytes_eq(files[i].hdr.name().as_bytes(), file_name.as_bytes()) {
            proof {
                lemma_find_stays(files@, file_name.spec_bytes(), i as int + 1);
            }
            return Some(i);
        }
        i += 1;
    }
    assert(files@.subrange(0, files.len() as int) =~= files@);
    None
}

/// A file that is found among the first files is found among all.
pub proof fn lemma_find_stays(files: Seq<UstarFile>, name: Seq<u8>, k: int)
    requires
        0 <= k <= files.len(),
        spec_find(files.subrange(0, k), name) is Some,
    ensures
        spec_find(files, name) == spec_find(files.subrange(0, k), name),
    decreases files.len() - k,
{
    if k < files.len() {
        assert(files.subrange(0, k + 1).drop_last() =~= files.subrange(0, k));
        lemma_find_stays(files, name, k + 1);
    } else {
        assert(files.subrange(0, k) =~= files);
    }
}

/// The first step of starting a program: the areas of the address space
/// that lie below the identity mapping of the kernel, which are those of
/// the program that ran before, are removed, and the file of the program
/// is looked up by its name. The place of the file is handed back, or
/// nothing if there is no such file. The name field of every header must
/// hold a string.
pub fn exec(mm: &mut VMMan, files: &[UstarFile], file_name: &str) -> (r: Option<usize>)
    requires
        forall|i: int|
            0 <= i < files@.len() ==> (#[trigger] files@[i]).hdr.wf() && FileHdr::spec_is_string(
                files@[i].hdr.spec_name_field(),
            ),
    ensures
        final(mm).vmas@ == old(mm).vmas@.filter(
            |a: VMArea| a.vm_range.start >= Mem::ID_MAP_START,
        ),
        match r {
            Some(i) => spec_find(files@, file_name.spec_bytes()) == Some(i as int),
            None => spec_find(files@, file_name.spec_bytes()) is None,
        },
        r is Some ==> r->0 < files@.len(),
{
    // the user areas go; the page tables are left as they are
    let mut kept: Vec<VMArea> = Vec::new();
    let ghost all = mm.vmas@;
    let ghost keep = |a: VMArea| a.vm_range.start >= Mem::ID_MAP_START;
    let ghost mut done: int = 0;
    assert(all.subrange(0, 0) =~= Seq::<VMArea>::empty());
    assert(all.subrange(0, all.len() as int) =~= all);
    while mm.vmas.len() > 0
        invariant
            0 <= done <= all.len(),
            mm.vmas@ == all.subrange(done, all.len() as int),
            kept@ == all.subrange(0, done).filter(keep),
            keep == |a: VMArea| a.vm_range.start >= Mem::ID_MAP_START,
        decreases mm.vmas.len(),
    {
        let vma = mm.vmas.remove(0);
        proof {
            assert(vma == all[done]);
            assert(all.subrange(0, done + 1).drop_last() =~= all.subrange(0, done));
            assert(all.subrange(0, done + 1).last() == vma);
            reveal(Seq::filter);
            assert(mm.vmas@ =~= all.subrange(done + 1, all.len() as int));
            done = done + 1;
        }
        if vma.vm_range.start >= Mem::ID_MAP_START {
            kept.push(vma);
        }
    }
    assert(all.subrange(0, done) =~= all);
    mm.vmas = kept;
    find_file(files, file_name)
}

} // verus!
