//! Results, options and small pieces of state shared by the operations.
use vstd::prelude::*;
use vstd::string::*;

verus! {

/// What a probe returned together with what ffprobe wrote to standard error.
#[derive(Debug)]
pub struct ProbeResult<T> {
    pub output: T,
    pub stderr: Vec<u8>,
}

/// A value with a low and a high bound.
#[derive(Debug, Clone, Copy)]
pub struct Estimate<T> {
    pub value: T,
    pub low: T,
    pub high: T,
}

/// How many samples a prediction encodes and how long each is, in milliseconds.
#[derive(Debug, Clone, Copy)]
pub struct PredictionOptions {
    pub samples: usize,
    pub sample_duration_ms: u64,
}

/// The number of audio frames decoded after a seek, and FFmpeg's diagnostics.
#[derive(Debug)]
pub struct SeekDecodeResult {
    pub audio_frames: u64,
    pub stderr: Vec<u8>,
}

/// How libvmaf samples frames: `None` scores every frame, `Some(n)` one in `n`.
#[derive(Debug, Clone, Copy, PartialEq, Eq, Structural)]
pub struct VmafOptions {
    pub n_subsample: Option<u32>,
}

/// Where an emulation writes its charts and which qualities it tries.
#[derive(Debug)]
pub struct EmulationOptions {
    pub png: Option<String>,
    pub svg: Option<String>,
    pub first_quality: u8,
    pub last_quality: u8,
}

/// Why an operation stopped.
#[derive(Debug)]
pub enum RunError {
    Cancelled,
    Failed(String),
}

/// Whether an error report describes a cancellation.
pub open spec fn run_error_of(cancelled: bool, message: Seq<char>, e: RunError) -> bool {
    if cancelled {
        e is Cancelled
    } else {
        e matches RunError::Failed(m) && m@ == message
    }
}

impl RunError {
    /// The error for a failure: cancellation when the failing command was cancelled,
    /// otherwise the failure with its message.
    pub fn from_failure(cancelled: bool, message: String) -> (e: RunError)
        ensures
            run_error_of(cancelled, message@, e),
    {
        if cancelled {
            RunError::Cancelled
        } else {
            RunError::Failed(message)
        }
    }
}

/// How checking a finished transcode ended.
#[derive(Debug)]
pub enum VerificationOutcome {
    Complete,
    MissingAudioAfterSeek { source_index: usize, destination_index: usize, timestamp: String },
}

/// The event raised when a workspace page's activity changes.
#[derive(Debug)]
pub struct ActivityChanged;

/// The names of a `/`-separated path in order: its pieces other than empty ones
/// and `.`, as `Path::components` keeps them.
pub open spec fn kept_names(pieces: Seq<Seq<char>>) -> Seq<Seq<char>>
    decreases pieces.len(),
{
    if pieces.len() == 0 {
        seq![]
    } else {
        let r = kept_names(pieces.drop_last());
        let p = pieces.last();
        if p.len() > 0 && p != seq!['.'] {
            r.push(p)
        } else {
            r
        }
    }
}

/// The components of a `/`-separated path, as `Path::components` reads them:
/// whether it starts at the root, whether it starts with `.`, and its names.
/// Repeated and trailing separators and inner `.` pieces make no component.
pub open spec fn path_components(s: Seq<char>) -> (bool, bool, Seq<Seq<char>>) {
    let pieces = crate::text::split_by(s, crate::text::is_char('/'));
    let root = s.len() > 0 && s[0] == '/';
    (root, !root && pieces.len() > 0 && pieces[0] == seq!['.'], kept_names(pieces))
}

/// Whether two paths name the same file: their components are equal, or both
/// resolve (made canonical, else absolute) to paths whose components are equal.
pub open spec fn same_path_spec(
    left: Seq<char>,
    right: Seq<char>,
    left_resolved: Option<Seq<char>>,
    right_resolved: Option<Seq<char>>,
) -> bool {
    path_components(left) == path_components(right) || match (left_resolved, right_resolved) {
        (Some(a), Some(b)) => path_components(a) == path_components(b),
        _ => false,
    }
}

fn chars_same(a: &Vec<char>, b: &Vec<char>) -> (r: bool)
    ensures
        r == (a@ == b@),
{
    if a.len() != b.len() {
        return false;
    }
    let mut i: usize = 0;
    while i < a.len()
        invariant
            a@.len() == b@.len(),
            i <= a@.len(),
            forall|k: int| 0 <= k < i ==> a@[k] == b@[k],
        decreases a@.len() - i,
    {
        if a[i] != b[i] {
            return false;
        }
        i += 1;
    }
    assert(a@ =~= b@);
    true
}

/// The components of a path.
fn components_of(s: &str) -> (r: (bool, bool, Vec<Vec<char>>))
    ensures
        (r.0, r.1, crate::text::views(r.2@)) == path_components(s@),
{
    let chars = crate::text::chars_of(s);
    let pieces = crate::text::split_chars(chars.as_slice(), '/');
    let ghost all = crate::text::views(pieces@);
    let root = chars.len() > 0 && chars[0] == '/';
    proof {
        assert(all.len() == pieces@.len());
        if pieces@.len() > 0 {
            assert(all[0] == pieces@[0]@);
        }
    }
    let lead = !root && pieces.len() > 0 && pieces[0].len() == 1 && pieces[0][0] == '.';
    proof {
        if !root && pieces@.len() > 0 {
            if pieces@[0]@ == seq!['.'] {
                assert(pieces@[0]@[0] == '.');
            }
            if pieces@[0]@.len() == 1 && pieces@[0]@[0] == '.' {
                assert(pieces@[0]@ =~= seq!['.']);
            }
        }
    }
    let mut names: Vec<Vec<char>> = Vec::new();
    let mut i: usize = 0;
    while i < pieces.len()
        invariant
            i <= pieces@.len(),
            all == crate::text::views(pieces@),
            all.len() == pieces@.len(),
            crate::text::views(names@) == kept_names(all.take(i as int)),
        decreases pieces@.len() - i,
    {
        let p = &pieces[i];
        proof {
            assert(all.take(i + 1).drop_last() =~= all.take(i as int));
            assert(all.take(i + 1).last() == all[i as int]);
            assert(all[i as int] == p@);
        }
        let dot = p.len() == 1 && p[0] == '.';
        proof {
            if p@ == seq!['.'] {
                assert(p@[0] == '.');
            }
            if dot {
                assert(p@ =~= seq!['.']);
            }
        }
        if p.len() > 0 && !dot {
            let ghost before = names@;
            names.push(p.clone());
            proof {
                assert(crate::text::views(names@) =~= crate::text::views(before).push(p@));
            }
        }
        i += 1;
    }
    assert(all.take(pieces@.len() as int) =~= all);
    (root, lead, names)
}

/// Whether two paths have the same components.
fn same_components(a: &str, b: &str) -> (r: bool)
    ensures
        r == (path_components(a@) == path_components(b@)),
{
    let (ra, la, na) = components_of(a);
    let (rb, lb, nb) = components_of(b);
    let ghost va = crate::text::views(na@);
    let ghost vb = crate::text::views(nb@);
    assert(path_components(a@).2 == va && path_components(b@).2 == vb);
    if ra != rb || la != lb || na.len() != nb.len() {
        return false;
    }
    let mut i: usize = 0;
    while i < na.len()
        invariant
            na@.len() == nb@.len(),
            va == crate::text::views(na@),
            vb == crate::text::views(nb@),
            path_components(a@).2 == va,
            path_components(b@).2 == vb,
            va.len() == na@.len(),
            vb.len() == nb@.len(),
            i <= na@.len(),
            forall|k: int| 0 <= k < i ==> va[k] == vb[k],
        decreases na@.len() - i,
    {
        proof {
            assert(va[i as int] == na@[i as int]@);
            assert(vb[i as int] == nb@[i as int]@);
        }
        if !chars_same(&na[i], &nb[i]) {
            assert(va[i as int] != vb[i as int]);
            assert(va != vb);
            assert(path_components(a@) != path_components(b@)) by {
                if path_components(a@) == path_components(b@) {
                    assert(path_components(a@).2 == path_components(b@).2);
                }
            }
            return false;
        }
        i += 1;
    }
    assert(va =~= vb);
    true
}

/// Whether two paths name the same file, given what each resolves to on disk:
/// paths are compared by their components, as `Path`'s equality compares them.
pub fn same_path(left: &str, right: &str, left_resolved: Option<&str>, right_resolved: Option<&str>) -> (r:
    bool)
    ensures
        r == same_path_spec(
            left@,
            right@,
            match left_resolved {
                Some(a) => Some(a@),
                None => None,
            },
            match right_resolved {
                Some(b) => Some(b@),
                None => None,
            },
        ),
{
    if same_components(left, right) {
        return true;
    }
    match (left_resolved, right_resolved) {
        (Some(a), Some(b)) => same_components(a, b),
        _ => false,
    }
}

/// The input a workflow reads: a file, or a folder where the workflow allows one.
#[derive(Debug)]
pub struct SourcePicker {
    path: Option<String>,
    is_directory: bool,
    allow_directory: bool,
    error: Option<String>,
}

/// What a picked path turned out to be on disk.
#[derive(Debug, Clone, Copy, PartialEq, Eq, Structural)]
pub enum PathKind {
    File,
    Directory,
    Missing,
}

impl SourcePicker {
    /// The picked path.
    pub closed spec fn picked(&self) -> Option<Seq<char>> {
        match self.path {
            Some(p) => Some(p@),
            None => None,
        }
    }

    /// Whether the picked path is a folder.
    pub closed spec fn picked_directory(&self) -> bool {
        self.is_directory
    }

    /// Whether the workflow accepts folders.
    pub closed spec fn allows_directory(&self) -> bool {
        self.allow_directory
    }

    /// The message shown for the last refused choice.
    pub closed spec fn message(&self) -> Option<Seq<char>> {
        match self.error {
            Some(e) => Some(e@),
            None => None,
        }
    }

    /// Nothing picked yet; folders allowed.
    pub fn new() -> (p: SourcePicker)
        ensures
            p.picked() is None,
            !p.picked_directory(),
            p.allows_directory(),
            p.message() is None,
    {
        SourcePicker { path: None, is_directory: false, allow_directory: true, error: None }
    }

    /// The picked path.
    pub fn path(&self) -> (r: Option<&str>)
        ensures
            match r {
                Some(p) => self.picked() == Some(p@),
                None => self.picked() is None,
            },
    {
        match &self.path {
            Some(p) => Some(p.as_str()),
            None => None,
        }
    }

    /// The picked path, unless it is a folder the workflow does not accept.
    pub fn valid_path(&self) -> (r: Option<&str>)
        ensures
            match r {
                Some(p) => (!self.picked_directory() || self.allows_directory()) && self.picked()
                    == Some(p@),
                None => (self.picked_directory() && !self.allows_directory()) || self.picked() is None,
            },
    {
        if !self.is_directory || self.allow_directory {
            self.path()
        } else {
            None
        }
    }

    /// Whether the picked path is a folder.
    pub fn is_directory(&self) -> (r: bool)
        ensures
            r == self.picked_directory(),
    {
        self.is_directory
    }

    /// The message shown for the last refused choice.
    pub fn error(&self) -> (r: Option<&str>)
        ensures
            match r {
                Some(e) => self.message() == Some(e@),
                None => self.message() is None,
            },
    {
        match &self.error {
            Some(e) => Some(e.as_str()),
            None => None,
        }
    }

    /// Allows or forbids folders; clears the message.
    pub fn set_allow_directory(&mut self, allow: bool)
        ensures
            final(self).allows_directory() == allow,
            final(self).picked() == old(self).picked(),
            final(self).picked_directory() == old(self).picked_directory(),
            final(self).message() is None,
    {
        self.allow_directory = allow;
        self.error = None;
    }

    /// Picks `path`, which is `kind` on disk: a missing path or, where folders are
    /// not accepted, a folder is refused with a message and changes nothing else.
    pub fn set_path(&mut self, path: String, kind: PathKind)
        ensures
            final(self).allows_directory() == old(self).allows_directory(),
            kind == PathKind::Missing ==> final(self).picked() == old(self).picked() && final(self).message()
                == Some("Cannot open "@ + path@),
            kind == PathKind::Directory && !old(self).allows_directory() ==> final(self).picked()
                == old(self).picked() && final(self).message() == Some(
                "This workflow requires a video file"@,
            ),
            (kind == PathKind::File || (kind == PathKind::Directory && old(self).allows_directory()))
                ==> final(self).picked() == Some(path@) && final(self).picked_directory() == (kind
                == PathKind::Directory) && final(self).message() is None,
    {
        match kind {
            PathKind::Missing => {
                self.error = Some(String::from_str("Cannot open ").concat(path.as_str()));
            },
            PathKind::Directory => {
                if !self.allow_directory {
                    self.error = Some(String::from_str("This workflow requires a video file"));
                } else {
                    self.is_directory = true;
                    self.path = Some(path);
                    self.error = None;
                }
            },
            PathKind::File => {
                self.is_directory = false;
                self.path = Some(path);
                self.error = None;
            },
        }
    }

    /// Asks for a folder or a file: asking for a folder where the workflow accepts
    /// none is refused with a message; returns whether the picker should open.
    pub fn choose_source(&mut self, directory: bool) -> (open: bool)
        ensures
            open == !(directory && !old(self).allows_directory()),
            !open ==> final(self).message() == Some("This workflow requires a video file"@)
                && final(self).picked() == old(self).picked(),
            open ==> *final(self) == *old(self),
    {
        if directory && !self.allow_directory {
            self.error = Some(String::from_str("This workflow requires a video file"));
            return false;
        }
        true
    }
}

} // verus!
