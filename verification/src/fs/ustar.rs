//! A reader for archives in the ustar format. An archive is a sequence of
//! entries; an entry is a header of 512 bytes and the content of the file,
//! filled up to a multiple of 512 bytes.
use vstd::prelude::*;
use vstd::string::StringSliceAdditionalSpecFns;
use vstd::utf8::{
    is_leading_byte_width_1, length_of_first_scalar, pop_first_scalar, valid_first_scalar,
    valid_utf8,
};

verus! {

/// The kind of an entry.
#[derive(Clone, Copy, Debug, PartialEq, Eq, Structural)]
pub enum FileType {
    NORMAL,
    HLINK,
    SYMLINK,
    CHAR_DEV,
    BLOCK_DEV,
    DIR,
    FIFO,
    CONT,
    EXTHDR_META,
    EXTHDR_METANXT,
    /// Any other flag; the vendor specific ones, 'A' to 'Z', are among
    /// them.
    RESERVED(u8),
}

impl FileType {
    /// The kind that the type flag of a header stands for.
    pub fn from_u8(flag: u8) -> (t: Self)
        ensures
            t == (if flag == 0x30 || flag == 0 {
                FileType::NORMAL
            } else if flag == 0x31 {
                FileType::HLINK
            } else if flag == 0x32 {
                FileType::SYMLINK
            } else if flag == 0x33 {
                FileType::CHAR_DEV
            } else if flag == 0x35 {
                FileType::DIR
            } else if flag == 0x36 {
                FileType::FIFO
            } else if flag == 0x37 {
                FileType::CONT
            } else if flag == 0x67 {
                FileType::EXTHDR_META
            } else if flag == 0x78 {
                FileType::EXTHDR_METANXT
            } else {
                FileType::RESERVED(flag)
            }),
    {
        match flag {
            0x30 | 0 => Self::NORMAL,
            0x31 => Self::HLINK,
            0x32 => Self::SYMLINK,
            0x33 => Self::CHAR_DEV,
            0x35 => Self::DIR,
            0x36 => Self::FIFO,
            0x37 => Self::CONT,
            0x67 => Self::EXTHDR_META,
            0x78 => Self::EXTHDR_METANXT,
            _ => Self::RESERVED(flag),
        }
    }
}

/// The number that a string of octal digits stands for. A byte that is no
/// digit counts by its distance from the digit zero.
pub open spec fn spec_oct2bin(s: Seq<u8>) -> int
    decreases s.len(),
{
    if s.len() == 0 {
        0
    } else {
        spec_oct2bin(s.drop_last()) * 8 + (s.last() - 0x30)
    }
}

/// Whether no byte of the string is below the digit zero.
pub open spec fn spec_digits(s: Seq<u8>) -> bool {
    forall|i: int| 0 <= i < s.len() ==> s[i] >= 0x30
}

/// A string of digits stands for a number that is not below the number of
/// any of its beginnings times eight.
pub proof fn lemma_oct2bin_grows(s: Seq<u8>, k: int)
    requires
        spec_digits(s),
        0 <= k <= s.len(),
    ensures
        0 <= spec_oct2bin(s.subrange(0, k)) <= spec_oct2bin(s),
        k < s.len() ==> spec_oct2bin(s.subrange(0, k)) * 8 <= spec_oct2bin(s),
    decreases s.len() - k,
{
    if k == 0 {
        assert(s.subrange(0, 0) =~= Seq::<u8>::empty());
        if s.len() > 0 {
            lemma_oct2bin_grows(s, 1);
            assert(s.subrange(0, 1).drop_last() =~= s.subrange(0, 0));
        }
    } else if k < s.len() {
        lemma_oct2bin_grows(s, k + 1);
        assert(s.subrange(0, k + 1).drop_last() =~= s.subrange(0, k));
        lemma_oct2bin_grows_base(s.subrange(0, k));
    } else {
        assert(s.subrange(0, k) =~= s);
        lemma_oct2bin_grows_base(s);
    }
}

proof fn lemma_oct2bin_grows_base(s: Seq<u8>)
    requires
        spec_digits(s),
    ensures
        0 <= spec_oct2bin(s),
    decreases s.len(),
{
    if s.len() > 0 {
        assert forall|i: int| 0 <= i < s.drop_last().len() implies s.drop_last()[i] >= 0x30 by {
            assert(s.drop_last()[i] == s[i]);
        }
        lemma_oct2bin_grows_base(s.drop_last());
    }
}

/// Convert a string of octal digits into a number. No byte may be below
/// the digit zero, and the number must fit.
pub fn oct2bin(s: &[u8]) -> (n: u32)
    requires
        spec_digits(s@),
        spec_oct2bin(s@) <= u32::MAX,
    ensures
        n == spec_oct2bin(s@),
{
    let mut n: u32 = 0;
    let mut i: usize = 0;
    assert(s@.subrange(0, 0) =~= Seq::<u8>::empty());
    while i < s.len()
        invariant
            0 <= i <= s.len(),
            spec_digits(s@),
            spec_oct2bin(s@) <= u32::MAX,
            n == spec_oct2bin(s@.subrange(0, i as int)),
        decreases s.len() - i,
    {
        proof {
            lemma_oct2bin_grows(s@, i as int);
            lemma_oct2bin_grows(s@, i as int + 1);
            assert(s@.subrange(0, i as int + 1).drop_last() =~= s@.subrange(0, i as int));
        }
        n *= 8;
        let d = s[i] - 0x30;
        n += d as u32;
        i += 1;
    }
    assert(s@.subrange(0, s.len() as int) =~= s@);
    n
}

/// The place of the first zero byte in a string, or the length of the
/// string if there is none.
pub open spec fn spec_first_null(s: Seq<u8>) -> int
    decreases s.len(),
{
    if s.len() == 0 || s[0] == 0 {
        0
    } else {
        1 + spec_first_null(s.drop_first())
    }
}

/// The place of the first zero byte is within the string or at its end,
/// no byte before it is zero, and where it is within the string a zero byte
/// is there.
pub proof fn lemma_first_null(s: Seq<u8>)
    ensures
        0 <= spec_first_null(s) <= s.len(),
        forall|i: int| 0 <= i < spec_first_null(s) ==> s[i] != 0,
        spec_first_null(s) < s.len() ==> s[spec_first_null(s)] == 0,
    decreases s.len(),
{
    if s.len() != 0 && s[0] != 0 {
        lemma_first_null(s.drop_first());
        assert forall|i: int| 0 <= i < spec_first_null(s) implies s[i] != 0 by {
            if i > 0 {
                assert(s.drop_first()[i - 1] == s[i]);
            }
        }
        if spec_first_null(s) < s.len() {
            assert(s.drop_first()[spec_first_null(s.drop_first())] == s[spec_first_null(s)]);
        }
    }
}

/// Cut a string behind its first zero byte: the result ends with that
/// byte. A string that starts with a zero byte gives nothing. The string
/// must hold a zero byte.
pub fn to_cstr(s: &[u8]) -> (r: Option<&[u8]>)
    requires
        spec_first_null(s@) < s@.len(),
    ensures
        r is None == (s@[0] == 0),
        r is Some ==> r->0@ == s@.subrange(0, spec_first_null(s@) + 1),
{
    let mut end: usize = 0;
    proof {
        lemma_first_null(s@);
    }
    while end < s.len() && s[end] != 0
        invariant
            0 <= end <= spec_first_null(s@) < s@.len(),
            forall|i: int| 0 <= i < spec_first_null(s@) ==> s@[i] != 0,
            s@[spec_first_null(s@)] == 0,
        decreases s.len() - end,
    {
        end += 1;
    }
    if end == 0 {
        return None;
    }
    return Some(&s[0..end + 1]);
}

/// `core::str::from_utf8`: the string that the bytes encode, where they are
/// valid UTF-8, and nothing where they are not.
#[verifier::external_body]
fn str_from_utf8<'a>(bytes: &'a [u8]) -> (r: Option<&'a str>)
    ensures
        r is Some == valid_utf8(bytes@),
        r is Some ==> r->0.spec_bytes() == bytes@,
{
    core::str::from_utf8(bytes).ok()
}

/// The header of an entry: 512 bytes.
#[derive(Clone, Copy)]
pub struct FileHdr<'a>(pub &'a [u8]);

impl<'a> View for FileHdr<'a> {
    type V = Seq<u8>;

    open spec fn view(&self) -> Seq<u8> {
        self.0@
    }
}

/// Whether the bytes of a header carry the magic of the format: the five
/// bytes "ustar" at offset 257.
pub open spec fn spec_magic(hdr: Seq<u8>) -> bool {
    hdr.subrange(257, 262) == seq![0x75u8, 0x73u8, 0x74u8, 0x61u8, 0x72u8]
}

/// The field of a header that holds the size of the file, in octal digits.
pub open spec fn spec_size_field(hdr: Seq<u8>) -> Seq<u8> {
    hdr.subrange(124, 135)
}

impl<'a> FileHdr<'a> {
    /// Whether the header has its 512 bytes.
    pub open spec fn wf(&self) -> bool {
        self@.len() == 512
    }

    /// The field of the header that holds the name of the file.
    pub open spec fn spec_name_field(&self) -> Seq<u8> {
        self.0@.subrange(0, 100)
    }

    /// The field of the header that holds the name of the owner.
    pub open spec fn spec_owner_field(&self) -> Seq<u8> {
        self.0@.subrange(265, 297)
    }

    /// The field of the header that holds the name of the owner's group.
    pub open spec fn spec_group_field(&self) -> Seq<u8> {
        self.0@.subrange(297, 329)
    }

    /// Whether a field holds a string: it does not start with a zero byte,
    /// a zero byte ends it, and the bytes before that are valid UTF-8.
    pub open spec fn spec_is_string(field: Seq<u8>) -> bool {
        &&& 0 < spec_first_null(field) < field.len()
        &&& valid_utf8(field.subrange(0, spec_first_null(field)))
    }

    /// The name of the file: the bytes of the name field before the first
    /// zero byte. The field must hold a string.
    pub fn name(&self) -> (name: &'a str)
        requires
            self.wf(),
            Self::spec_is_string(self.spec_name_field()),
        ensures
            name.spec_bytes() == self.spec_name_field().subrange(
                0,
                spec_first_null(self.spec_name_field()),
            ),
    {
        let field = &self.0[0..100];
        proof {
            lemma_first_null(field@);
        }
        let file_name = to_cstr(field).unwrap();
        // without the zero byte at the end
        let bare = &file_name[0..file_name.len() - 1];
        assert(bare@ =~= field@.subrange(0, spec_first_null(field@)));
        str_from_utf8(bare).unwrap()
    }

    /// The name of the owner, with the zero byte that ends it. The field
    /// must hold a string.
    pub fn owner(&self) -> (owner: &'a str)
        requires
            self.wf(),
            Self::spec_is_string(self.spec_owner_field()),
        ensures
            owner.spec_bytes() == self.spec_owner_field().subrange(
                0,
                spec_first_null(self.spec_owner_field()) + 1,
            ),
    {
        let field = &self.0[265..265 + 32];
        let user_name = to_cstr(field).unwrap();
        proof {
            lemma_first_null(field@);
            lemma_string_with_null(field@);
        }
        str_from_utf8(user_name).unwrap()
    }

    /// The name of the owner's group, with the zero byte that ends it. The
    /// field must hold a string.
    pub fn owner_group(&self) -> (group: &'a str)
        requires
            self.wf(),
            Self::spec_is_string(self.spec_group_field()),
        ensures
            group.spec_bytes() == self.spec_group_field().subrange(
                0,
                spec_first_null(self.spec_group_field()) + 1,
            ),
    {
        let field = &self.0[297..297 + 32];
        let user_name = to_cstr(field).unwrap();
        proof {
            lemma_first_null(field@);
            lemma_string_with_null(field@);
        }
        str_from_utf8(user_name).unwrap()
    }

    /// Whether the size field can be read: it holds digits, and the number
    /// fits.
    pub open spec fn spec_size_ok(&self) -> bool {
        &&& spec_digits(spec_size_field(self@))
        &&& spec_oct2bin(spec_size_field(self@)) <= u32::MAX
    }

    /// The size of the file in bytes.
    pub open spec fn spec_size(&self) -> int {
        spec_oct2bin(spec_size_field(self@))
    }

    /// The size of the file in bytes. The size field must be readable.
    pub fn size(&self) -> (n: u32)
        requires
            self.wf(),
            self.spec_size_ok(),
        ensures
            n == self.spec_size(),
    {
        let sz = &self.0[124..124 + 11];
        let n_sz = oct2bin(sz);
        n_sz
    }

    /// Whether the header carries the magic of the format.
    pub open spec fn spec_is_ustar(&self) -> bool {
        spec_magic(self@)
    }

    /// Whether the header carries the magic of the format: the five bytes
    /// "ustar" at offset 257.
    pub fn is_ustar(&self) -> (r: bool)
        requires
            self.wf(),
        ensures
            r == self.spec_is_ustar(),
    {
        let m = &self.0[257..(257 + 5)];
        let r = m[0] == 0x75 && m[1] == 0x73 && m[2] == 0x74 && m[3] == 0x61 && m[4] == 0x72;
        assert(r == (m@ =~= seq![0x75u8, 0x73u8, 0x74u8, 0x61u8, 0x72u8]));
        r
    }

    /// The header at the start of a slice, if the slice has the 512 bytes
    /// of one.
    pub fn from_slice(ustar_slice: &'a [u8]) -> (r: Option<Self>)
        ensures
            r is Some == (ustar_slice@.len() >= 512),
            r is Some ==> r->0@ == ustar_slice@.subrange(0, 512) && r->0.wf(),
    {
        if ustar_slice.len() < 512 {
            return None;
        }
        Some(Self(&ustar_slice[0..512]))
    }
}

/// A string that is valid UTF-8 stays so with a zero byte behind it.
proof fn lemma_string_with_null(field: Seq<u8>)
    requires
        FileHdr::spec_is_string(field),
    ensures
        valid_utf8(field.subrange(0, spec_first_null(field) + 1)),
{
    lemma_first_null(field);
    let k = spec_first_null(field);
    lemma_valid_utf8_push_null(field.subrange(0, k));
    assert(field.subrange(0, k).push(0u8) =~= field.subrange(0, k + 1));
}

/// Valid UTF-8 stays valid with a zero byte behind it.
proof fn lemma_valid_utf8_push_null(s: Seq<u8>)
    requires
        valid_utf8(s),
    ensures
        valid_utf8(s.push(0u8)),
    decreases s.len(),
{
    let t = s.push(0u8);
    assert(0u8 & 0x80 == 0) by (bit_vector);
    if s.len() == 0 {
        assert(t =~= seq![0u8]);
        assert(is_leading_byte_width_1(t[0]));
        assert(length_of_first_scalar(t) == 1);
        assert(pop_first_scalar(t) =~= Seq::<u8>::empty());
        assert(valid_utf8(pop_first_scalar(t)));
        assert(valid_first_scalar(t));
    } else {
        let n = length_of_first_scalar(s);
        assert(valid_first_scalar(s));
        assert(1 <= n <= s.len());
        lemma_valid_utf8_push_null(pop_first_scalar(s));
        assert(pop_first_scalar(s).push(0u8) =~= pop_first_scalar(t));
        assert(valid_first_scalar(t));
    }
}

/// A file of an archive: its header and its content.
#[derive(Clone, Copy)]
pub struct UstarFile<'a> {
    pub hdr: FileHdr<'a>,
    pub file: &'a [u8],
}

/// A cursor that walks over the files of an archive.
#[derive(Clone, Copy)]
pub struct UstarArchiveIter<'a> {
    pub archive: &'a [u8],
    pub iter_curr: usize,
}

/// A cursor at the start of an archive.
pub fn iter<'a>(archive: &'a [u8]) -> (it: UstarArchiveIter<'a>)
    ensures
        it.archive@ == archive@,
        it.iter_curr == 0,
{
    UstarArchiveIter { archive, iter_curr: 0 }
}

/// Whether an archive has an entry at an offset: the 512 bytes of a header
/// are there, and they carry the magic of the format.
pub open spec fn spec_has_entry(archive: Seq<u8>, at: int) -> bool {
    &&& 0 <= at
    &&& at + 512 <= archive.len()
    &&& spec_magic(archive.subrange(at, at + 512))
}

/// The size of the file of the entry at an offset.
pub open spec fn spec_entry_size(archive: Seq<u8>, at: int) -> int {
    spec_oct2bin(spec_size_field(archive.subrange(at, at + 512)))
}

/// The offset of the entry behind the entry at an offset: the content of
/// a file is filled up to a multiple of 512 bytes.
pub open spec fn spec_next_entry(archive: Seq<u8>, at: int) -> int {
    at + ((spec_entry_size(archive, at) + 511) / 512 + 1) * 512
}

/// Whether the entry at an offset is whole: its size can be read, the
/// content of the file is within the archive, and the offset of the next
/// entry is within the range of offsets.
pub open spec fn spec_entry_ok(archive: Seq<u8>, at: int) -> bool {
    &&& spec_digits(spec_size_field(archive.subrange(at, at + 512)))
    &&& spec_entry_size(archive, at) <= u32::MAX
    &&& at + 512 + spec_entry_size(archive, at) <= archive.len()
    &&& spec_next_entry(archive, at) <= usize::MAX
}

impl<'a> UstarArchiveIter<'a> {
    /// The file at the cursor, if an entry is there; the cursor moves
    /// behind it. Where no entry is at the cursor, nothing is handed out and
    /// the cursor stays. An entry at the cursor must be whole.
    pub fn next(&mut self) -> (r: Option<UstarFile<'a>>)
        requires
            spec_has_entry(old(self).archive@, old(self).iter_curr as int) ==> spec_entry_ok(
                old(self).archive@,
                old(self).iter_curr as int,
            ),
        ensures
            final(self).archive == old(self).archive,
            r is Some == spec_has_entry(old(self).archive@, old(self).iter_curr as int),
            r is None ==> final(self).iter_curr == old(self).iter_curr,
            r is Some ==> {
                &&& r->0.hdr@ == old(self).archive@.subrange(
                    old(self).iter_curr as int,
                    old(self).iter_curr + 512,
                )
                &&& r->0.file@ == old(self).archive@.subrange(
                    old(self).iter_curr + 512,
                    old(self).iter_curr + 512 + spec_entry_size(
                        old(self).archive@,
                        old(self).iter_curr as int,
                    ),
                )
                &&& final(self).iter_curr == spec_next_entry(
                    old(self).archive@,
                    old(self).iter_curr as int,
                )
            },
    {
        if self.iter_curr >= self.archive.len() {
            return None;
        }
        let rest = &self.archive[self.iter_curr..self.archive.len()];
        let hdr = FileHdr::from_slice(rest);
        if hdr.is_none() {
            return None;
        }
        let hdr = hdr.unwrap();
        assert(hdr@ =~= self.archive@.subrange(self.iter_curr as int, self.iter_curr + 512));
        if !hdr.is_ustar() {
            return None;
        }
        let file_sz = hdr.size() as usize;
        let ret = Some(
            UstarFile {
                hdr: hdr,
                file: &self.archive[(self.iter_curr + 512)..(self.iter_curr + 512 + file_sz)],
            },
        );
        assert((file_sz + 511) / 512 + 1 <= file_sz + 512 && ((file_sz + 511) / 512 + 1) * 512
            <= usize::MAX) by (nonlinear_arith)
            requires
                0 <= file_sz,
                self.iter_curr + ((file_sz + 511) / 512 + 1) * 512 <= usize::MAX,
                self.iter_curr >= 0,
        ;
        self.iter_curr += (((file_sz + 511) / 512) + 1) * 512;
        return ret;
    }

    /// All the files from the cursor on, in their order. Every entry on
    /// the way must be whole.
    pub fn collect(self) -> (files: Vec<UstarFile<'a>>)
        requires
            spec_entries_ok(self.archive@, self.iter_curr as int),
        ensures
            files@.len() == spec_entries(self.archive@, self.iter_curr as int).len(),
            forall|i: int|
                0 <= i < files@.len() ==> {
                    let at = spec_entries(self.archive@, self.iter_curr as int)[i];
                    &&& (#[trigger] files@[i]).hdr@ == self.archive@.subrange(at, at + 512)
                    &&& files@[i].file@ == self.archive@.subrange(
                        at + 512,
                        at + 512 + spec_entry_size(self.archive@, at),
                    )
                },
    {
        let mut it = self;
        let mut files: Vec<UstarFile<'a>> = Vec::new();
        let ghost all = spec_entries(self.archive@, self.iter_curr as int);
        loop
            invariant
                it.archive == self.archive,
                spec_entries_ok(it.archive@, it.iter_curr as int),
                all == spec_entries(self.archive@, self.iter_curr as int),
                files@.len() + spec_entries(it.archive@, it.iter_curr as int).len() == all.len(),
                forall|j: int|
                    0 <= j < spec_entries(it.archive@, it.iter_curr as int).len() ==>
                        all[files@.len()
                        + j] == #[trigger] spec_entries(it.archive@, it.iter_curr as int)[j],
                forall|i: int|
                    0 <= i < files@.len() ==> {
                        &&& (#[trigger] files@[i]).hdr@ == self.archive@.subrange(all[i],
                            all[i] + 512)
                        &&& files@[i].file@ == self.archive@.subrange(
                            all[i] + 512,
                            all[i] + 512 + spec_entry_size(self.archive@, all[i]),
                        )
                    },
            decreases spec_entries(it.archive@, it.iter_curr as int).len(),
        {
            let ghost at = it.iter_curr as int;
            let ghost rest = spec_entries(it.archive@, at);
            let f = it.next();
            match f {
                Some(f) => {
                    proof {
                        assert(rest[0] == at);
                        let after = spec_entries(it.archive@, it.iter_curr as int);
                        assert(rest =~= seq![at] + after);
                        assert forall|j: int| 0 <= j < after.len() implies all[files@.len() + 1
                            + j] == #[trigger] after[j] by {
                            assert(rest[j + 1] == after[j]);
                        }
                    }
                    files.push(f);
                },
                None => {
                    return files;
                },
            }
        }
    }
}

/// The offsets of the entries of an archive from an offset on: one entry
/// after the other, up to the first place at which no entry is.
pub open spec fn spec_entries(archive: Seq<u8>, at: int) -> Seq<int>
    decreases
            (if at < archive.len() {
                archive.len() - at
            } else {
                0
            }),
{
    if spec_has_entry(archive, at) && spec_next_entry(archive, at) > at {
        seq![at] + spec_entries(archive, spec_next_entry(archive, at))
    } else {
        Seq::empty()
    }
}

/// Whether every entry from an offset on is whole.
pub open spec fn spec_entries_ok(archive: Seq<u8>, at: int) -> bool
    decreases
            (if at < archive.len() {
                archive.len() - at
            } else {
                0
            }),
{
    if spec_has_entry(archive, at) && spec_next_entry(archive, at) > at {
        spec_entry_ok(archive, at) && spec_entries_ok(archive, spec_next_entry(archive, at))
    } else {
        !spec_has_entry(archive, at)
    }
}

} // verus!
