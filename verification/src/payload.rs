//! The client's mirror of a job: a bundle of files staged for execution.

use crate::path::{join, joined};
use crate::path::{sanitize_filename, sanitized};
use crate::status::{lowercase, Status};
use crate::text::{decimal, decimal_text, same};
use vstd::prelude::*;

verus! {

/// One submitted file, held in memory until the payload is prepared.
#[derive(Debug)]
pub struct InputFile {
    pub name: String,
    pub data: Vec<u8>,
}

/// A submitted file as the contracts see it.
pub struct InputFileView {
    pub name: Seq<char>,
    pub data: Seq<u8>,
}

impl View for InputFile {
    type V = InputFileView;

    open spec fn view(&self) -> InputFileView {
        InputFileView { name: self.name@, data: self.data@ }
    }
}

impl Clone for InputFile {
    fn clone(&self) -> (r: Self)
        ensures
            r@ == self@,
    {
        let data = self.data.clone();
        assert(data@ =~= self.data@);
        InputFile { name: self.name.clone(), data }
    }
}

/// A payload as the store holds it.
#[derive(Debug)]
pub struct PayloadRow {
    pub id: u32,
    /// The status by its stored name.
    pub status: String,
    pub loc: Option<String>,
}

/// The files of a payload after the first `n` files of a submission were
/// added under their sanitized names.
pub open spec fn staged(files: Seq<InputFileView>, n: int) -> Seq<InputFileView>
    decreases n,
{
    if n <= 0 {
        Seq::empty()
    } else {
        with_input(
            staged(files, n - 1),
            InputFileView { name: sanitized(files[n - 1].name), data: files[n - 1].data },
        )
    }
}

/// A bundle of files that the client runs as a script.
#[derive(Debug)]
pub struct Payload {
    pub id: u32,
    /// The submitted files, each name once, in the order in which the names
    /// first came.
    pub input: Vec<InputFile>,
    pub status: Status,
    pub loc: String,
}

/// A payload as the contracts see it.
pub struct PayloadView {
    pub id: u32,
    pub input: Seq<InputFileView>,
    pub status: Status,
    pub loc: Seq<char>,
}

impl View for Payload {
    type V = PayloadView;

    open spec fn view(&self) -> PayloadView {
        PayloadView {
            id: self.id,
            input: Seq::new(self.input@.len(), |i: int| self.input@[i]@),
            status: self.status,
            loc: self.loc@,
        }
    }
}

impl Clone for Payload {
    fn clone(&self) -> (r: Self)
        ensures
            r@ == self@,
    {
        let mut input: Vec<InputFile> = Vec::new();
        let mut i: usize = 0;
        while i < self.input.len()
            invariant
                i <= self.input.len(),
                input@.len() == i,
                forall|k: int| 0 <= k < i ==> (#[trigger] input@[k])@ == self.input@[k]@,
            decreases self.input.len() - i,
        {
            input.push(self.input[i].clone());
            i += 1;
        }
        let r = Payload { id: self.id, input, status: self.status, loc: self.loc.clone() };
        assert(r@.input =~= self@.input);
        r
    }
}

/// The position of the first file called `name`, or the list's length.
pub open spec fn input_position(input: Seq<InputFileView>, name: Seq<char>) -> int
    decreases input.len(),
{
    if input.len() == 0 {
        0
    } else if input[0].name == name {
        0
    } else {
        1 + input_position(input.skip(1), name)
    }
}

/// The list with `file` in place of the first file of its name, or at the
/// end where none has it.
pub open spec fn with_input(input: Seq<InputFileView>, file: InputFileView) -> Seq<InputFileView> {
    let i = input_position(input, file.name);
    if i < input.len() {
        input.update(i, file)
    } else {
        input.push(file)
    }
}

/// No two files share a name.
pub open spec fn names_distinct(input: Seq<InputFileView>) -> bool {
    forall|i: int, j: int|
        0 <= i < j < input.len() ==> #[trigger] input[i].name != #[trigger] input[j].name
}

proof fn lemma_input_position_found(input: Seq<InputFileView>, name: Seq<char>)
    ensures
        0 <= input_position(input, name) <= input.len(),
        input_position(input, name) < input.len() ==> input[input_position(input, name)].name
            == name,
        forall|k: int| 0 <= k < input_position(input, name) ==> (#[trigger] input[k]).name != name,
    decreases input.len(),
{
    if input.len() > 0 && input[0].name != name {
        let rest = input.skip(1);
        lemma_input_position_found(rest, name);
        assert forall|k: int| 0 <= k < input_position(input, name) implies (
        #[trigger] input[k]).name != name by {
            if k > 0 {
                assert(input[k] == rest[k - 1]);
            }
        }
    }
}

/// Adding a file keeps the names distinct.
pub proof fn lemma_with_input_distinct(input: Seq<InputFileView>, file: InputFileView)
    requires
        names_distinct(input),
    ensures
        names_distinct(with_input(input, file)),
{
    lemma_input_position_found(input, file.name);
    let after = with_input(input, file);
    let i = input_position(input, file.name);
    assert forall|a: int, b: int| 0 <= a < b < after.len() implies #[trigger] after[a].name
        != #[trigger] after[b].name by {
        if i < input.len() {
            assert(after[a].name == input[a].name);
            assert(after[b].name == input[b].name);
        } else {
            if b < input.len() {
                assert(after[a].name == input[a].name);
                assert(after[b].name == input[b].name);
            } else {
                assert(after[a] == input[a]);
            }
        }
    }
}

/// The files of a submission are staged under distinct names.
pub proof fn lemma_staged_distinct(files: Seq<InputFileView>, n: int)
    ensures
        names_distinct(staged(files, n)),
    decreases n,
{
    if n > 0 {
        lemma_staged_distinct(files, n - 1);
        lemma_with_input_distinct(
            staged(files, n - 1),
            InputFileView { name: sanitized(files[n - 1].name), data: files[n - 1].data },
        );
    }
}

proof fn lemma_input_position(input: Seq<InputFileView>, name: Seq<char>, i: int)
    requires
        0 <= i <= input.len(),
        forall|k: int| 0 <= k < i ==> (#[trigger] input[k]).name != name,
        i < input.len() ==> input[i].name == name,
    ensures
        input_position(input, name) == i,
    decreases input.len(),
{
    if input.len() > 0 && i > 0 {
        let rest = input.skip(1);
        assert(input[0].name != name);
        assert forall|k: int| 0 <= k < i - 1 implies (#[trigger] rest[k]).name != name by {
            assert(rest[k] == input[k + 1]);
        }
        lemma_input_position(rest, name, i - 1);
    }
}

impl Payload {
    /// An empty payload that was never stored.
    pub fn new() -> (p: Payload)
        ensures
            p@ == (PayloadView {
                id: 0,
                input: Seq::empty(),
                status: Status::Unknown,
                loc: Seq::empty(),
            }),
    {
        let p = Payload { id: 0, input: Vec::new(), status: Status::Unknown, loc: String::new() };
        assert(p@.input =~= Seq::empty());
        p
    }

    /// The payload that a stored row describes: without files, in the
    /// directory that the row names or, where it names none, in the one
    /// named by the payload's number below `data_path`.
    pub fn from_row(row: PayloadRow, data_path: &str) -> (p: Payload)
        ensures
            p@ == (PayloadView {
                id: row.id,
                input: Seq::empty(),
                status: Status::of_name(lowercase(row.status@)),
                loc: match row.loc {
                    Some(l) => l@,
                    None => joined(data_path@, decimal_text(row.id as nat)),
                },
            }),
    {
        let status = Status::from_string(row.status.as_str());
        let loc = match row.loc {
            Some(l) => l,
            None => {
                let number = decimal(row.id as u64);
                join(data_path, number.as_str())
            },
        };
        let p = Payload { id: row.id, input: Vec::new(), status, loc };
        assert(p@.input =~= Seq::empty());
        p
    }

    /// The payload made of the files of a submission, each under its
    /// sanitized name; of two files with the same name the later one
    /// stays.
    pub fn from_upload(files: Vec<InputFile>) -> (p: Payload)
        ensures
            p@ == (PayloadView {
                id: 0,
                input: staged(Seq::new(files@.len(), |i: int| files@[i]@), files@.len() as int),
                status: Status::Unknown,
                loc: Seq::empty(),
            }),
            names_distinct(p@.input),
    {
        proof {
            lemma_staged_distinct(Seq::new(files@.len(), |i: int| files@[i]@), files@.len() as int);
        }
        let ghost all = Seq::new(files@.len(), |i: int| files@[i]@);
        let mut p = Payload::new();
        let mut files = files;
        let mut i: usize = 0;
        let n = files.len();
        while i < n
            invariant
                i <= n,
                n == files@.len(),
                all.len() == n,
                forall|k: int| i <= k < n ==> (#[trigger] files@[k])@ == all[k],
                p@ == (PayloadView {
                    id: 0,
                    input: staged(all, i as int),
                    status: Status::Unknown,
                    loc: Seq::empty(),
                }),
            decreases n - i,
        {
            let mut taken = InputFile { name: String::new(), data: Vec::new() };
            let ghost before = files@;
            assert(files@[i as int]@ == all[i as int]);
            std::mem::swap(&mut files[i], &mut taken);
            proof {
                assert(files@ =~= before.update(i as int, files@[i as int]));
                assert(taken == before[i as int]);
            }
            let name = sanitize_filename(taken.name.as_str());
            p.add_input(name, taken.data);
            i += 1;
        }
        p
    }

    /// Records the number under which the payload is stored.
    pub fn set_id(&mut self, id: u32)
        ensures
            final(self)@ == (PayloadView { id, ..old(self)@ }),
    {
        self.id = id;
    }

    /// Adds a file; one of the same name is replaced.
    #[verifier::loop_isolation(false)]
    pub fn add_input(&mut self, filename: String, input: Vec<u8>)
        ensures
            final(self)@ == (PayloadView {
                input: with_input(old(self)@.input, InputFileView { name: filename@, data: input@ }),
                ..old(self)@
            }),
            names_distinct(old(self)@.input) ==> names_distinct(final(self)@.input),
    {
        proof {
            if names_distinct(self@.input) {
                lemma_with_input_distinct(
                    self@.input,
                    InputFileView { name: filename@, data: input@ },
                );
            }
        }
        let ghost before = self@.input;
        let ghost file = InputFileView { name: filename@, data: input@ };
        let mut i: usize = 0;
        while i < self.input.len()
            invariant
                i <= self.input.len(),
                self@.input == before,
                self@ == old(self)@,
                forall|k: int| 0 <= k < i ==> (#[trigger] before[k]).name != filename@,
            decreases self.input.len() - i,
        {
            assert(before[i as int] == self.input@[i as int]@);
            if same(self.input[i].name.as_str(), filename.as_str()) {
                proof {
                    lemma_input_position(before, filename@, i as int);
                }
                let ghost held = self.input@;
                let item = InputFile { name: filename, data: input };
                let ghost put = item;
                assert(put@ == file);
                self.input.set(i, item);
                assert(self.input@ == held.update(i as int, put));
                assert forall|k: int| 0 <= k < before.len() implies self@.input[k] == before.update(
                    i as int,
                    file,
                )[k] by {
                    assert(self@.input[k] == self.input@[k]@);
                    if k != i {
                        assert(self.input@[k] == held[k]);
                        assert(before[k] == held[k]@);
                    } else {
                        assert(self.input@[k] == put);
                    }
                }
                assert(self@.input =~= with_input(before, file));
                return ;
            }
            i += 1;
        }
        proof {
            lemma_input_position(before, filename@, i as int);
        }
        let ghost held = self.input@;
        let item = InputFile { name: filename, data: input };
        let ghost put = item;
        assert(put@ == file);
        self.input.push(item);
        assert(self.input@ == held.push(put));
        assert forall|k: int| 0 <= k < before.len() implies self@.input[k] == before[k] by {
            assert(self@.input[k] == self.input@[k]@);
            assert(self.input@[k] == held[k]);
            assert(before[k] == held[k]@);
        }
        assert(self@.input[before.len() as int] == self.input@[before.len() as int]@);
        assert(self@.input =~= with_input(before, file));
    }

    /// Puts the payload in `status`.
    pub fn set_status(&mut self, status: Status)
        ensures
            final(self)@ == (PayloadView { status, ..old(self)@ }),
    {
        self.status = status;
    }

    /// Names the payload's directory.
    pub fn set_loc(&mut self, loc: String)
        ensures
            final(self)@ == (PayloadView { loc: loc@, ..old(self)@ }),
    {
        self.loc = loc;
    }

    /// Gives the payload its directory, named by its number below
    /// `data_path`, and says where each of its files belongs: the `i`-th
    /// path is that of the `i`-th file, by its name, in the directory.
    /// Nothing is written here.
    pub fn prepare(&mut self, data_path: &str) -> (paths: Vec<String>)
        ensures
            final(self)@ == (PayloadView {
                loc: joined(data_path@, decimal_text(old(self)@.id as nat)),
                ..old(self)@
            }),
            paths@.len() == old(self)@.input.len(),
            forall|i: int|
                0 <= i < paths@.len() ==> (#[trigger] paths@[i])@ == joined(
                    final(self)@.loc,
                    old(self)@.input[i].name,
                ),
    {
        let number = decimal(self.id as u64);
        self.loc = join(data_path, number.as_str());
        let mut paths: Vec<String> = Vec::new();
        let mut i: usize = 0;
        while i < self.input.len()
            invariant
                i <= self.input.len(),
                self@ == (PayloadView {
                    loc: joined(data_path@, decimal_text(old(self)@.id as nat)),
                    ..old(self)@
                }),
                paths@.len() == i,
                forall|k: int|
                    0 <= k < i ==> (#[trigger] paths@[k])@ == joined(self@.loc, self@.input[k].name),
            decreases self.input.len() - i,
        {
            paths.push(join(self.loc.as_str(), self.input[i].name.as_str()));
            i += 1;
        }
        paths
    }
}

} // verus!
