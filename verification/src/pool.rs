use vstd::prelude::*;
use vstd::string::StringExecFns;
use crate::errors::XtempError;
use crate::text::{texts_of, lemma_texts_of_push};

verus! {

/// A record's on-disk rendering: its characters, plus a trailing newline
/// exactly when `keep_newlines` is set; otherwise the text verbatim, with
/// no trailing byte appended.
pub open spec fn line_rendered(line: Seq<char>, keep_newlines: bool) -> Seq<char> {
    if keep_newlines {
        line.push('\n')
    } else {
        line
    }
}

/// Relies on `tempfile::NamedTempFile`: one scratch file with a stable
/// filesystem path, removed when the handle is dropped. The handle sits
/// behind an opaque struct of this crate because the underlying type's
/// default file parameter is a type Verus cannot be given here.
#[verifier::external_body]
struct ScratchFile {
    inner: tempfile::NamedTempFile,
}

/// Relies on `tempfile::NamedTempFile::new`: creates a fresh empty scratch
/// file in the platform's temp directory, or reports the OS error text.
#[verifier::external_body]
fn create_scratch_file() -> (r: Result<ScratchFile, String>)
{
    match tempfile::NamedTempFile::new() {
        Ok(f) => Ok(ScratchFile { inner: f }),
        Err(e) => Err(e.to_string()),
    }
}

/// Relies on `tempfile::NamedTempFile::path`: the file's filesystem path,
/// rendered as a string. The pool queries it once per slot, at allocation,
/// and stores it: a slot's path never changes afterwards.
#[verifier::external_body]
fn scratch_file_path(f: &ScratchFile) -> (r: String)
{
    f.inner.path().to_string_lossy().into_owned()
}

/// Relies on `tempfile::NamedTempFile::as_file_mut` and std's file
/// operations: truncates the scratch file at `i` to zero length,
/// repositions to the start, writes exactly `text`'s bytes, and flushes so
/// a subsequently spawned process sees them; reports the first OS error.
#[verifier::external_body]
fn rewrite_scratch_file(files: &mut Vec<ScratchFile>, i: usize, text: &str) -> (r:
    Result<(), String>)
    requires
        i < old(files)@.len(),
    ensures
        final(files)@.len() == old(files)@.len(),
{
    let file = files[i].inner.as_file_mut();
    if let Err(e) = file.set_len(0) {
        return Err(e.to_string());
    }
    if let Err(e) = std::io::Seek::seek(file, std::io::SeekFrom::Start(0)) {
        return Err(e.to_string());
    }
    if let Err(e) = std::io::Write::write_all(file, text.as_bytes()) {
        return Err(e.to_string());
    }
    std::io::Write::flush(file).map_err(|e| e.to_string())
}

/// Relies on `tempfile::NamedTempFile::reopen` and std's read: the current
/// on-disk contents of the scratch file at `i`, decoded as UTF-8.
#[verifier::external_body]
fn read_scratch_file(files: &Vec<ScratchFile>, i: usize) -> (r: Result<String, String>)
    requires
        i < files@.len(),
{
    let mut file = match files[i].inner.reopen() {
        Ok(f) => f,
        Err(e) => return Err(e.to_string()),
    };
    let mut s = String::new();
    match std::io::Read::read_to_string(&mut file, &mut s) {
        Ok(_) => Ok(s),
        Err(e) => Err(e.to_string()),
    }
}

/// A fixed pool of reusable scratch files. The slot count and every
/// slot's path are fixed at allocation; only slot contents change, by
/// whole-file rewrite. `written` is the pool's model of the text each
/// slot was most recently rewritten with.
pub struct TempfilePool {
    files: Vec<ScratchFile>,
    paths: Vec<String>,
    written: Ghost<Seq<Seq<char>>>,
}

impl TempfilePool {
    /// Number of slots.
    pub closed spec fn len_spec(&self) -> nat {
        self.files@.len()
    }

    /// Slot paths, in slot order.
    pub closed spec fn paths_view(&self) -> Seq<Seq<char>> {
        texts_of(self.paths@)
    }

    /// The text each slot was most recently rewritten with (empty at
    /// allocation).
    pub closed spec fn written_view(&self) -> Seq<Seq<char>> {
        self.written@
    }

    /// Every slot has a handle, a stored path, and a content model entry.
    pub closed spec fn wf(&self) -> bool {
        self.files@.len() == self.paths@.len() && self.files@.len() == self.written@.len()
    }

    /// A well-formed pool has one stored path per slot.
    pub proof fn lemma_paths_len(&self)
        requires
            self.wf(),
        ensures
            self.paths_view().len() == self.len_spec(),
            self.written_view().len() == self.len_spec(),
    {
    }

    pub fn len(&self) -> (r: usize)
        ensures
            r == self.len_spec(),
    {
        self.files.len()
    }

    /// Create `n` empty scratch files. On any creation failure no pool is
    /// handed out — the files already created are dropped, which removes
    /// them — and the OS cause is reported as a provisioning error.
    pub fn allocate(n: usize) -> (r: Result<TempfilePool, XtempError>)
        ensures
            n == 0 ==> r is Ok,
            r matches Ok(p) ==> p.wf() && p.len_spec() == n && p.written_view() == Seq::new(
                n as nat,
                |i: int| Seq::<char>::empty(),
            ),
            r matches Err(e) ==> e is ProvisioningFailed,
    {
        let mut files: Vec<ScratchFile> = Vec::new();
        let mut paths: Vec<String> = Vec::new();
        let ghost mut written: Seq<Seq<char>> = Seq::empty();
        for k in 0..n
            invariant
                files@.len() == k,
                paths@.len() == k,
                written.len() == k,
                forall|i: int| 0 <= i < k ==> written[i] == Seq::<char>::empty(),
        {
            let f = match create_scratch_file() {
                Ok(f) => f,
                Err(m) => {
                    return Err(XtempError::ProvisioningFailed(m));
                },
            };
            let p = scratch_file_path(&f);
            files.push(f);
            paths.push(p);
            proof {
                written = written.push(Seq::<char>::empty());
            }
        }
        let pool = TempfilePool { files, paths, written: Ghost(written) };
        proof {
            assert(pool.written_view() =~= Seq::new(n as nat, |i: int| Seq::<char>::empty()));
        }
        Ok(pool)
    }

    /// The path of slot `i`.
    pub fn path(&self, i: usize) -> (r: &String)
        requires
            self.wf(),
            i < self.len_spec(),
        ensures
            r@ == self.paths_view()[i as int],
    {
        &self.paths[i]
    }

    /// The ordered paths of the first `active` slots — exactly the slots
    /// the most recent batch populated, never a stale one beyond them.
    pub fn paths(&self, active: usize) -> (r: Vec<String>)
        requires
            self.wf(),
            active <= self.len_spec(),
        ensures
            texts_of(r@) == self.paths_view().take(active as int),
            r@.len() == active,
    {
        let mut out: Vec<String> = Vec::new();
        proof {
            assert(texts_of(out@) =~= self.paths_view().take(0));
        }
        for k in 0..active
            invariant
                self.wf(),
                active <= self.len_spec(),
                texts_of(out@) == self.paths_view().take(k as int),
        {
            let ghost prevv = out@;
            out.push(self.paths[k].clone());
            proof {
                lemma_texts_of_push(prevv, out@[prevv.len() as int]);
                assert(texts_of(out@) =~= self.paths_view().take(k + 1));
            }
        }
        out
    }

    /// Overwrite slot `i` with `line`, rendered with or without a trailing
    /// newline. The slot's path is untouched; on failure the content model
    /// keeps its old value and the error carries the OS cause.
    pub fn write_slot(&mut self, i: usize, line: &String, keep_newlines: bool) -> (r: Result<
        (),
        XtempError,
    >)
        requires
            old(self).wf(),
            i < old(self).len_spec(),
        ensures
            final(self).wf(),
            final(self).len_spec() == old(self).len_spec(),
            final(self).paths_view() == old(self).paths_view(),
            r matches Ok(_) ==> final(self).written_view() == old(self).written_view().update(
                i as int,
                line_rendered(line@, keep_newlines),
            ),
            r matches Err(e) ==> e is FailedToWrite && final(self).written_view() == old(
                self,
            ).written_view(),
    {
        let mut text = line.clone();
        if keep_newlines {
            text.append("\n");
            proof {
                reveal_strlit("\n");
                assert(text@ =~= line@.push('\n'));
            }
        }
        let res = rewrite_scratch_file(&mut self.files, i, text.as_str());
        match res {
            Ok(_) => {
                proof {
                    self.written@ = self.written@.update(
                        i as int,
                        line_rendered(line@, keep_newlines),
                    );
                }
                Ok(())
            },
            Err(m) => Err(XtempError::FailedToWrite(m)),
        }
    }

    /// Write records `start..start + count` into slots `0..count`: the
    /// rewrite of the pool at the start of one batch. Slots at `count` and
    /// beyond keep whatever they held before. Aborted by the first failed
    /// rewrite, reported as a write error.
    pub fn write_batch(
        &mut self,
        records: &Vec<String>,
        start: usize,
        count: usize,
        keep_newlines: bool,
    ) -> (r: Result<(), XtempError>)
        requires
            old(self).wf(),
            start + count <= records@.len(),
            count <= old(self).len_spec(),
        ensures
            final(self).wf(),
            final(self).len_spec() == old(self).len_spec(),
            final(self).paths_view() == old(self).paths_view(),
            r matches Ok(_) ==> forall|i: int|
                0 <= i < count ==> final(self).written_view()[i] == line_rendered(
                    records@[start + i]@,
                    keep_newlines,
                ),
            r matches Ok(_) ==> forall|i: int|
                count <= i < final(self).len_spec() ==> final(self).written_view()[i] == old(
                    self,
                ).written_view()[i],
            r matches Err(e) ==> e is FailedToWrite,
    {
        let ghost orig = old(self).written_view();
        let rlen = records.len();
        for j in 0..count
            invariant
                self.wf(),
                self.len_spec() == old(self).len_spec(),
                self.paths_view() == old(self).paths_view(),
                start + count <= records@.len(),
                rlen == records@.len(),
                count <= self.len_spec(),
                forall|i: int|
                    0 <= i < j ==> self.written_view()[i] == line_rendered(
                        records@[start + i]@,
                        keep_newlines,
                    ),
                forall|i: int|
                    j <= i < self.len_spec() ==> self.written_view()[i] == orig[i],
        {
            match self.write_slot(j, &records[start + j], keep_newlines) {
                Ok(_) => {},
                Err(e) => {
                    return Err(e);
                },
            }
        }
        Ok(())
    }

    /// Read back the current on-disk contents of slot `i`, decoded as
    /// UTF-8: an observation of the file itself, for callers that want to
    /// see what a child process would read.
    pub fn slot_content(&self, i: usize) -> (r: Result<String, XtempError>)
        requires
            self.wf(),
            i < self.len_spec(),
        ensures
            r matches Err(e) ==> e is FailedToWrite,
    {
        match read_scratch_file(&self.files, i) {
            Ok(s) => Ok(s),
            Err(m) => Err(XtempError::FailedToWrite(m)),
        }
    }
}

/// The list file's contents for one batch: each active slot path followed
/// by a newline, in slot order.
pub open spec fn list_rendering(paths: Seq<Seq<char>>) -> Seq<char>
    decreases paths.len(),
{
    if paths.len() == 0 {
        Seq::empty()
    } else {
        paths[0].push('\n') + list_rendering(paths.drop_first())
    }
}

/// Listing one more path appends that path and a newline.
pub proof fn lemma_list_rendering_push(paths: Seq<Seq<char>>, x: Seq<char>)
    ensures
        list_rendering(paths.push(x)) == list_rendering(paths) + x.push('\n'),
    decreases paths.len(),
{
    if paths.len() == 0 {
        assert(paths.push(x)[0] == x);
        assert(paths.push(x).drop_first() =~= Seq::<Seq<char>>::empty());
        assert(x.push('\n') + list_rendering(Seq::empty()) =~= x.push('\n'));
        assert(list_rendering(paths) + x.push('\n') =~= x.push('\n'));
    } else {
        assert(paths.push(x)[0] == paths[0]);
        assert(paths.push(x).drop_first() =~= paths.drop_first().push(x));
        lemma_list_rendering_push(paths.drop_first(), x);
        assert(paths[0].push('\n') + (list_rendering(paths.drop_first()) + x.push('\n')) =~= (
        paths[0].push('\n') + list_rendering(paths.drop_first())) + x.push('\n'));
    }
}

/// Render the newline-joined path list that the list file holds for one
/// batch: the same truncate-and-rewrite discipline as a pool slot then
/// puts exactly this text on disk.
pub fn render_list(paths: &Vec<String>) -> (r: String)
    ensures
        r@ == list_rendering(texts_of(paths@)),
{
    let mut out = String::new();
    let ghost pv = texts_of(paths@);
    proof {
        assert(pv.take(0) =~= Seq::<Seq<char>>::empty());
    }
    let n = paths.len();
    for k in 0..n
        invariant
            n == paths@.len(),
            pv == texts_of(paths@),
            out@ == list_rendering(pv.take(k as int)),
    {
        let p = &paths[k];
        out.append(p.as_str());
        out.append("\n");
        proof {
            reveal_strlit("\n");
            lemma_list_rendering_push(pv.take(k as int), pv[k as int]);
            assert(pv.take(k as int).push(pv[k as int]) =~= pv.take(k + 1));
            assert(out@ =~= list_rendering(pv.take(k + 1)));
        }
    }
    proof {
        assert(pv.take(n as int) =~= pv);
    }
    out
}

} // verus!
