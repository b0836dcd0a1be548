//! Running one transcode request over every video file below a folder.
use vstd::prelude::*;
use vstd::string::*;
use crate::commands::{join_path, joined_path};
use crate::media::{opt_view, MediaInfo};
use crate::path::last_dot;
use crate::plan::{container_extension, has_regular_video, input_container, Container, TranscodeRequest};
use crate::text::{chars_of, decimal, decimal_string, push_char, str_eq};

verus! {

/// The end of the last component of `p[..k]`, skipping trailing separators and
/// `.` components.
pub open spec fn name_end(p: Seq<char>, k: nat) -> nat
    decreases k,
{
    if k == 0 || k > p.len() {
        0
    } else if p[k - 1] == '/' {
        name_end(p, (k - 1) as nat)
    } else if p[k - 1] == '.' && (k == 1 || p[k - 2] == '/') {
        name_end(p, (k - 1) as nat)
    } else {
        k
    }
}

/// The start of the component of `p` that ends at `e`.
pub open spec fn name_start(p: Seq<char>, e: nat) -> nat
    decreases e,
{
    if e == 0 || e > p.len() {
        0
    } else if p[e - 1] == '/' {
        e
    } else {
        name_start(p, (e - 1) as nat)
    }
}

/// The length of a file name's stem: up to its last `.`, unless that dot starts the name.
pub open spec fn stem_len(name: Seq<char>) -> nat {
    match last_dot(name, name.len()) {
        Some(k) => if k == 0 {
            name.len()
        } else {
            k
        },
        None => name.len(),
    }
}

/// `PathBuf::set_extension`: the path cut after the stem of its file name, then
/// `.` and `ext` unless `ext` is empty; a path without a file name is unchanged.
pub open spec fn replaced_extension(p: Seq<char>, ext: Seq<char>) -> Seq<char> {
    let e = name_end(p, p.len());
    let s = name_start(p, e);
    let name = p.subrange(s as int, e as int);
    if e == 0 || name == ".."@ {
        p
    } else {
        p.take((s + stem_len(name)) as int) + if ext.len() == 0 {
            Seq::<char>::empty()
        } else {
            "."@ + ext
        }
    }
}

proof fn lemma_name_end_bound(p: Seq<char>, k: nat)
    requires
        k <= p.len(),
    ensures
        name_end(p, k) <= k,
    decreases k,
{
    if k > 0 {
        lemma_name_end_bound(p, (k - 1) as nat);
    }
}

proof fn lemma_name_start_bound(p: Seq<char>, e: nat)
    requires
        e <= p.len(),
    ensures
        name_start(p, e) <= e,
    decreases e,
{
    if e > 0 {
        lemma_name_start_bound(p, (e - 1) as nat);
    }
}

proof fn lemma_last_dot_bound(s: Seq<char>, k: nat)
    ensures
        last_dot(s, k) matches Some(d) ==> d < k,
    decreases k,
{
    if k > 0 && k <= s.len() && s[k - 1] != '.' {
        lemma_last_dot_bound(s, (k - 1) as nat);
    }
}

/// The position of the last `.` among the characters `cs`.
fn last_dot_of(cs: &Vec<char>) -> (r: Option<usize>)
    ensures
        match r {
            Some(k) => last_dot(cs@, cs@.len()) == Some(k as nat),
            None => last_dot(cs@, cs@.len()) is None,
        },
{
    let mut k: usize = cs.len();
    while k > 0
        invariant
            k <= cs@.len(),
            last_dot(cs@, cs@.len()) == last_dot(cs@, k as nat),
        decreases k,
    {
        if cs[k - 1] == '.' {
            return Some(k - 1);
        }
        k -= 1;
    }
    None
}

/// `path` with the extension of its file name replaced by `ext`.
pub fn replace_extension(path: &str, ext: &str) -> (r: String)
    ensures
        r@ == replaced_extension(path@, ext@),
{
    let p = chars_of(path);
    let ghost pv = path@;
    let mut e: usize = p.len();
    while e > 0 && (p[e - 1] == '/' || (p[e - 1] == '.' && (e == 1 || p[e - 2] == '/')))
        invariant
            p@ == pv,
            e <= pv.len(),
            name_end(pv, pv.len()) == name_end(pv, e as nat),
        decreases e,
    {
        e -= 1;
    }
    assert(name_end(pv, pv.len()) == e);
    let mut s: usize = e;
    while s > 0 && p[s - 1] != '/'
        invariant
            p@ == pv,
            s <= e <= pv.len(),
            name_start(pv, e as nat) == name_start(pv, s as nat),
        decreases s,
    {
        s -= 1;
    }
    assert(name_start(pv, e as nat) == s);
    let mut name: Vec<char> = Vec::new();
    let mut i: usize = s;
    while i < e
        invariant
            p@ == pv,
            s <= i <= e <= pv.len(),
            name@ == pv.subrange(s as int, i as int),
        decreases e - i,
    {
        name.push(p[i]);
        assert(name@ =~= pv.subrange(s as int, i + 1));
        i += 1;
    }
    let dotdot = name.len() == 2 && name[0] == '.' && name[1] == '.';
    proof {
        reveal_strlit("..");
        if name@ == ".."@ {
            assert(name@[0] == '.' && name@[1] == '.');
        }
        if dotdot {
            assert(name@ =~= ".."@);
        }
    }
    if e == 0 || dotdot {
        return String::from_str(path);
    }
    proof {
        lemma_last_dot_bound(name@, name@.len());
    }
    let stem = match last_dot_of(&name) {
        Some(k) => if k == 0 {
            name.len()
        } else {
            k
        },
        None => name.len(),
    };
    assert(stem == stem_len(name@));
    assert(name@.len() == e - s);
    assert(stem <= name@.len());
    assert(name@ != ".."@);
    assert(e != 0);
    let end: usize = s + stem;
    let mut out = String::new();
    let mut j: usize = 0;
    while j < end
        invariant
            p@ == pv,
            end <= pv.len(),
            j <= end,
            out@ == pv.take(j as int),
        decreases end - j,
    {
        push_char(&mut out, p[j]);
        assert(out@ =~= pv.take(j + 1));
        j += 1;
    }
    proof {
        reveal_strlit(".");
    }
    if ext.is_empty() {
        assert(out@ + Seq::<char>::empty() =~= out@);
        out
    } else {
        let r = out.concat(".").concat(ext);
        assert(r@ =~= out@ + ("."@ + ext@));
        r
    }
}

/// The container a file at `input`, read with the demuxers `format`, is written
/// back in; `None` without a demuxer.
pub open spec fn found_container(input: Seq<char>, format: Option<Seq<char>>) -> Option<Container> {
    match format {
        Some(f) => input_container(input, f),
        None => None,
    }
}

/// The container a batch task writes: the requested one, else the input's own.
pub open spec fn task_container(requested: Option<Container>, input: Seq<char>, format: Option<Seq<char>>) -> Option<
    Container,
> {
    match requested {
        Some(c) => Some(c),
        None => found_container(input, format),
    }
}

/// Where a batch task writes: `relative` below the output folder, with the
/// requested container's extension when that container is not the input's own.
pub open spec fn task_output(
    dir: Seq<char>,
    relative: Seq<char>,
    requested: Option<Container>,
    input: Seq<char>,
    format: Option<Seq<char>>,
) -> Seq<char> {
    match requested {
        Some(c) => if found_container(input, format) != Some(c) {
            replaced_extension(joined_path(dir, relative), container_extension(c))
        } else {
            joined_path(dir, relative)
        },
        None => joined_path(dir, relative),
    }
}

/// Whether the probe found a timed video stream.
fn any_regular_video(media: &MediaInfo) -> (r: bool)
    ensures
        r == has_regular_video(*media),
{
    let mut i: usize = 0;
    while i < media.streams.len()
        invariant
            i <= media.streams@.len(),
            forall|j: int| 0 <= j < i ==> !crate::media::regular_video(#[trigger] media.streams@[j]),
        decreases media.streams@.len() - i,
    {
        if media.streams[i].is_regular_video() {
            assert(crate::media::regular_video(media.streams@[i as int]));
            return true;
        }
        i += 1;
    }
    false
}

/// Whether no path occurs twice in `v`.
pub open spec fn no_repeats(v: Seq<Seq<char>>) -> bool {
    forall|i: int, j: int| 0 <= i < j < v.len() ==> v[i] != v[j]
}

/// The outputs claimed so far by the tasks of one batch.
#[derive(Debug)]
pub struct BatchOutputs {
    paths: Vec<String>,
}

/// Why a file found below the input folder cannot become a task.
#[derive(Debug)]
pub enum BatchError {
    /// No container was requested and the file's demuxer has no matching muxer.
    UnsupportedContainer { format: Option<String> },
    /// An earlier file of the batch already writes this output.
    Collision { output: String },
}

impl BatchOutputs {
    /// The claimed output paths, in the order they were claimed.
    pub closed spec fn claimed(&self) -> Seq<Seq<char>> {
        self.paths@.map_values(|s: String| s@)
    }

    /// No output is claimed twice.
    #[verifier::type_invariant]
    spec fn claims_once(&self) -> bool {
        no_repeats(self.claimed())
    }

    /// No output claimed yet.
    pub fn new() -> (o: BatchOutputs)
        ensures
            o.claimed() == Seq::<Seq<char>>::empty(),
    {
        let o = BatchOutputs { paths: Vec::new() };
        assert(o.claimed() =~= Seq::<Seq<char>>::empty());
        o
    }

    /// Whether `path` is already claimed.
    pub fn contains(&self, path: &str) -> (r: bool)
        ensures
            r == self.claimed().contains(path@),
    {
        let mut i: usize = 0;
        while i < self.paths.len()
            invariant
                i <= self.paths@.len(),
                forall|j: int| 0 <= j < i ==> self.claimed()[j] != path@,
            decreases self.paths@.len() - i,
        {
            if str_eq(self.paths[i].as_str(), path) {
                assert(self.claimed()[i as int] == path@);
                return true;
            }
            i += 1;
        }
        false
    }

    /// The task for the file `input`, found at `relative` below the input folder and
    /// probed as `media`: `None` for a file without timed video, else the output it
    /// writes, which is claimed. A file whose container cannot be chosen, or whose
    /// output an earlier task claimed, is refused and nothing is claimed.
    pub fn task_for(
        &mut self,
        template: &TranscodeRequest,
        input: &str,
        relative: &str,
        media: &MediaInfo,
    ) -> (r: Result<Option<String>, BatchError>)
        ensures
            !has_regular_video(*media) ==> (r matches Ok(None) && final(self).claimed() == old(self).claimed()),
            has_regular_video(*media) && task_container(template.container, input@, opt_view(media.format.format_name))
                is None ==> (r matches Err(BatchError::UnsupportedContainer { format }) && opt_view(format)
                == opt_view(media.format.format_name) && final(self).claimed() == old(self).claimed()),
            has_regular_video(*media) && task_container(template.container, input@, opt_view(media.format.format_name))
                is Some ==> ({
                let out = task_output(
                    template.output@,
                    relative@,
                    template.container,
                    input@,
                    opt_view(media.format.format_name),
                );
                if old(self).claimed().contains(out) {
                    (r matches Err(BatchError::Collision { output }) && output@ == out && final(self).claimed()
                        == old(self).claimed())
                } else {
                    (r matches Ok(Some(o)) && o@ == out && final(self).claimed() == old(self).claimed().push(out))
                }
            }),
            no_repeats(final(self).claimed()),
    {
        proof {
            use_type_invariant(&*self);
        }
        if !any_regular_video(media) {
            return Ok(None);
        }
        let format = match &media.format.format_name {
            Some(f) => Some(f.as_str()),
            None => None,
        };
        let found = Container::from_input(input, format);
        if template.container.is_none() && found.is_none() {
            let format = match &media.format.format_name {
                Some(f) => Some(f.clone()),
                None => None,
            };
            return Err(BatchError::UnsupportedContainer { format });
        }
        let joined = join_path(template.output.as_str(), relative);
        let output = match template.container {
            Some(c) => if found != Some(c) {
                replace_extension(joined.as_str(), c.extension())
            } else {
                joined
            },
            None => joined,
        };
        if self.contains(output.as_str()) {
            return Err(BatchError::Collision { output });
        }
        let claimed = output.clone();
        let ghost before = self.claimed();
        let mut paths = Vec::new();
        std::mem::swap(&mut paths, &mut self.paths);
        assert(paths@.map_values(|s: String| s@) == before);
        paths.push(claimed);
        assert(paths@.map_values(|s: String| s@) =~= before.push(output@));
        self.paths = paths;
        Ok(Some(output))
    }
}

/// The line that ends a batch: the task counts, and for a cancelled batch how many
/// tasks were never processed.
pub open spec fn batch_summary_text(total: nat, succeeded: nat, failed: nat, cancelled: bool) -> Seq<char> {
    "batch summary: total "@ + decimal(total) + " | succeeded "@ + decimal(succeeded) + " | failed "@
        + decimal(failed) + if cancelled {
        " | not processed "@ + decimal((total - succeeded - failed) as nat) + " | cancelled"@
    } else {
        Seq::<char>::empty()
    } + "\n"@
}

/// The line that ends a batch.
pub fn batch_summary(total: u64, succeeded: u64, failed: u64, cancelled: bool) -> (r: String)
    requires
        cancelled ==> succeeded + failed <= total,
    ensures
        r@ == batch_summary_text(total as nat, succeeded as nat, failed as nat, cancelled),
{
    let head = String::from_str("batch summary: total ").concat(decimal_string(total).as_str()).concat(
        " | succeeded ",
    ).concat(decimal_string(succeeded).as_str()).concat(" | failed ").concat(decimal_string(failed).as_str());
    let tail = if cancelled {
        String::from_str(" | not processed ").concat(decimal_string(total - succeeded - failed).as_str()).concat(
            " | cancelled",
        )
    } else {
        proof {
            reveal_strlit("");
        }
        String::new()
    };
    let r = head.concat(tail.as_str()).concat("\n");
    assert(r@ =~= batch_summary_text(total as nat, succeeded as nat, failed as nat, cancelled));
    r
}

} // verus!
