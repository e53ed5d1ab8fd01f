//! A simple shell: it gathers a line from the keys that are typed, and
//! tells what the line asks for.
use crate::fs::ustar::{FileHdr, UstarFile};
use crate::kthread::KThread;
use crate::proc::exec::{bytes_eq, lemma_find_stays, spec_find};
use vstd::prelude::*;
use vstd::slice::slice_subrange;
use vstd::string::StringSliceAdditionalSpecFns;

verus! {

pub struct Kshell {}

impl Kshell {
    pub const ENTRY: u64 = 0x5e11;
}

impl KThread for Kshell {
    open spec fn spec_entry() -> u64 {
        Self::ENTRY
    }

    fn entry() -> (addr: u64) {
        Self::ENTRY
    }
}

/// What a key does to the line that is being typed.
#[derive(Debug, PartialEq, Eq)]
pub enum Typed {
    /// Backspace: the last byte of the line was taken back, if the line
    /// had one.
    Erased(bool),
    /// Enter: the line is complete. It is handed over, and a new line
    /// begins.
    Submitted(Vec<u8>),
    /// Any other key: its byte was added to the line and is to be shown.
    Echoed(u8),
}

/// Take a key into the line that is being typed.
pub fn event_loop(input_buffer: &mut Vec<u8>, k: u8) -> (r: Typed)
    ensures
        k == 0x8 ==> r == Typed::Erased(old(input_buffer)@.len() > 0) && final(input_buffer)@ == (
        if old(input_buffer)@.len() > 0 {
            old(input_buffer)@.drop_last()
        } else {
            old(input_buffer)@
        }),
        k == 0xa ==> (r matches Typed::Submitted(line) && line@ == old(input_buffer)@)
            && final(input_buffer)@.len() == 0,
        k != 0x8 && k != 0xa ==> r == Typed::Echoed(k)
            && final(input_buffer)@ == old(input_buffer)@.push(k),
{
    if k == 0x8 {
        // backspace
        if let Some(_) = input_buffer.pop() {
            Typed::Erased(true)
        } else {
            Typed::Erased(false)
        }
    } else if k == 0xa {
        // enter
        let mut line: Vec<u8> = Vec::new();
        line.append(input_buffer);
        assert(line@ =~= old(input_buffer)@);
        Typed::Submitted(line)
    } else {
        input_buffer.push(k);
        Typed::Echoed(k)
    }
}

/// What a line asks the shell to do.
#[derive(Copy, Clone, Debug, PartialEq, Eq)]
pub enum Command<'a> {
    /// "ls": list the names of the files.
    List,
    /// "cat" with the name of a file: show the file at this place.
    Show(usize),
    /// "cat" without a name.
    NeedFileName,
    /// "cat" with a name that no file has.
    NoSuchFile(&'a [u8]),
    /// An empty line.
    Nothing,
    /// "clear": clear the screen.
    Clear,
    /// "mem": list the areas of the address space.
    Mem,
    /// Anything else is the name of a program to run.
    Exec(&'a [u8]),
}

/// The place of the first space in a string, or the length of the string
/// if there is none.
pub open spec fn spec_first_space(s: Seq<u8>) -> int
    decreases s.len(),
{
    if s.len() == 0 || s[0] == 0x20 {
        0
    } else {
        1 + spec_first_space(s.drop_first())
    }
}

/// The place of the first space is within the string or at its end, and no
/// byte before it is a space.
pub proof fn lemma_first_space(s: Seq<u8>)
    ensures
        0 <= spec_first_space(s) <= s.len(),
        forall|i: int| 0 <= i < spec_first_space(s) ==> s[i] != 0x20,
        spec_first_space(s) < s.len() ==> s[spec_first_space(s)] == 0x20,
    decreases s.len(),
{
    if s.len() != 0 && s[0] != 0x20 {
        lemma_first_space(s.drop_first());
        assert forall|i: int| 0 <= i < spec_first_space(s) implies s[i] != 0x20 by {
            if i > 0 {
                assert(s.drop_first()[i - 1] == s[i]);
            }
        }
        if spec_first_space(s) < s.len() {
            assert(s.drop_first()[spec_first_space(s.drop_first())] == s[spec_first_space(s)]);
        }
    }
}

/// The first word of a line: what stands before the first space.
pub open spec fn spec_word(s: Seq<u8>) -> Seq<u8> {
    s.subrange(0, spec_first_space(s))
}

/// What follows the first space of a line, if the line has a space.
pub open spec fn spec_rest(s: Seq<u8>) -> Option<Seq<u8>> {
    if spec_first_space(s) < s.len() {
        Some(s.subrange(spec_first_space(s) + 1, s.len() as int))
    } else {
        None
    }
}

/// Cut a string at its first space: the word before the space, and what
/// follows the space if there is one.
pub fn split_word<'a>(s: &'a [u8]) -> (r: (&'a [u8], Option<&'a [u8]>))
    ensures
        r.0@ == spec_word(s@),
        r.1 is Some == spec_rest(s@) is Some,
        r.1 is Some ==> r.1->0@ == spec_rest(s@)->0,
{
    let mut end: usize = 0;
    proof {
        lemma_first_space(s@);
    }
    while end < s.len() && s[end] != 0x20
        invariant
            0 <= end <= spec_first_space(s@) <= s@.len(),
            forall|i: int| 0 <= i < spec_first_space(s@) ==> s@[i] != 0x20,
            spec_first_space(s@) < s@.len() ==> s@[spec_first_space(s@)] == 0x20,
        decreases s.len() - end,
    {
        end += 1;
    }
    let word = slice_subrange(s, 0, end);
    if end < s.len() {
        (word, Some(slice_subrange(s, end + 1, s.len())))
    } else {
        (word, None)
    }
}

/// The word "ls".
pub open spec fn spec_ls() -> Seq<u8> {
    seq![0x6cu8, 0x73u8]
}

/// The word "cat".
pub open spec fn spec_cat() -> Seq<u8> {
    seq![0x63u8, 0x61u8, 0x74u8]
}

/// The word "clear".
pub open spec fn spec_clear() -> Seq<u8> {
    seq![0x63u8, 0x6cu8, 0x65u8, 0x61u8, 0x72u8]
}

/// The word "mem".
pub open spec fn spec_mem() -> Seq<u8> {
    seq![0x6du8, 0x65u8, 0x6du8]
}

/// What a line asks for, by its first word.
pub open spec fn spec_handle(cmd: Seq<u8>, files: Seq<UstarFile>) -> Command<'static> {
    let word = spec_word(cmd);
    if word == spec_ls() {
        Command::List
    } else if word == spec_cat() {
        match spec_rest(cmd) {
            None => Command::NeedFileName,
            Some(rest) => match spec_find(files, spec_word(rest)) {
                Some(i) => Command::Show(i as usize),
                None => Command::NoSuchFile(arbitrary()),
            },
        }
    } else if word.len() == 0 {
        Command::Nothing
    } else if word == spec_clear() {
        Command::Clear
    } else if word == spec_mem() {
        Command::Mem
    } else {
        Command::Exec(arbitrary())
    }
}

/// Tell what a line asks for. The first word of the line is the command;
/// "cat" takes the second word as the name of a file, which is looked up
/// among the files; a word that is no command is the name of a program to
/// run. The name field of every header must hold a string.
pub fn handle<'a>(cmd: &'a str, files: &[UstarFile]) -> (r: Command<'a>)
    requires
        forall|i: int|
            0 <= i < files@.len() ==> (#[trigger] files@[i]).hdr.wf() && FileHdr::spec_is_string(
                files@[i].hdr.spec_name_field(),
            ),
    ensures
        match spec_handle(cmd.spec_bytes(), files@) {
            Command::List => r == Command::<'a>::List,
            Command::Show(i) => r == Command::<'a>::Show(i),
            Command::NeedFileName => r == Command::<'a>::NeedFileName,
            Command::NoSuchFile(_) => (r matches Command::NoSuchFile(name) && name@ == spec_word(
                spec_rest(cmd.spec_bytes())->0,
            )),
            Command::Nothing => r == Command::<'a>::Nothing,
            Command::Clear => r == Command::<'a>::Clear,
            Command::Mem => r == Command::<'a>::Mem,
            Command::Exec(_) => (r matches Command::Exec(name) && name@ == spec_word(
                cmd.spec_bytes(),
            )),
        },
{
    broadcast use vstd::array::group_array_axioms;

    let ls: [u8; 2] = [0x6c, 0x73];
    let cat: [u8; 3] = [0x63, 0x61, 0x74];
    let clear: [u8; 5] = [0x63, 0x6c, 0x65, 0x61, 0x72];
    let mem: [u8; 3] = [0x6d, 0x65, 0x6d];
    assert(ls@ =~= spec_ls());
    assert(cat@ =~= spec_cat());
    assert(clear@ =~= spec_clear());
    assert(mem@ =~= spec_mem());
    let (word, rest) = split_word(cmd.as_bytes());
    if bytes_eq(word, ls.as_slice()) {
        Command::List
    } else if bytes_eq(word, cat.as_slice()) {
        match rest {
            None => Command::NeedFileName,
            Some(rest) => {
                let (file_name, _) = split_word(rest);
                match find_bytes(files, file_name) {
                    Some(i) => Command::Show(i),
                    None => Command::NoSuchFile(file_name),
                }
            },
        }
    } else if word.len() == 0 {
        Command::Nothing
    } else if bytes_eq(word, clear.as_slice()) {
        Command::Clear
    } else if bytes_eq(word, mem.as_slice()) {
        Command::Mem
    } else {
        Command::Exec(word)
    }
}

/// Look for the first file with a name that is given in bytes.
fn find_bytes(files: &[UstarFile], name: &[u8]) -> (r: Option<usize>)
    requires
        forall|i: int|
            0 <= i < files@.len() ==> (#[trigger] files@[i]).hdr.wf() && FileHdr::spec_is_string(
                files@[i].hdr.spec_name_field(),
            ),
    ensures
        match r {
            Some(i) => spec_find(files@, name@) == Some(i as int),
            None => spec_find(files@, name@) is None,
        },
{
    let mut i: usize = 0;
    assert(files@.subrange(0, 0) =~= Seq::<UstarFile>::empty());
    while i < files.len()
        invariant
            0 <= i <= files.len(),
            forall|j: int|
                0 <= j < files@.len() ==> (#[trigger] files@[j]).hdr.wf()
                    && FileHdr::spec_is_string(files@[j].hdr.spec_name_field()),
            spec_find(files@.subrange(0, i as int), name@) is None,
        decreases files.len() - i,
    {
        proof {
            assert(files@.subrange(0, i as int + 1).drop_last() =~= files@.subrange(0, i as int));
            assert(files@.subrange(0, i as int + 1).last() == files@[i as int]);
        }
        if bytes_eq(files[i].hdr.name().as_bytes(), name) {
            proof {
                lemma_find_stays(files@, name@, i as int + 1);
            }
            return Some(i);
        }
        i += 1;
    }
    assert(files@.subrange(0, files.len() as int) =~= files@);
    None
}

} // verus!
