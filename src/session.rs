use vstd::prelude::*;
use crate::artifacts::{
    data_of_record, data_source, fixed_index, fixed_path, ArtifactTarget, DataSource, DataSourceView,
};
use crate::directory::{
    allocation_entries_from, directory_sources, directory_sources_of, find_child, first_match,
    lemma_lookup_ignores_ascii_case,
    index_allocation_entries, path_components, path_parts, IndexSource, IndexSourceView,
    DIRECTORY_STREAM_LIMIT, ROOT_DIRECTORY_INODE,
};
use crate::error::{parse_error, FactError};
use crate::index::{IndexEntry, IndexEntryView};
use crate::names::eq_ignore_ascii_case;
use crate::runlist::DataRun;
use crate::mft::{
    extent_plan, fixup_record, plan_fits, record_fixup, record_location, Extent, MftReader,
    MFT_RECORD_SIZE,
};

verus! {

/// What the driver of a [`Collection`] does next.
#[derive(Debug)]
pub enum Action {
    /// Read these ranges of the volume in order and pass their bytes,
    /// concatenated, to `resume` (or the read error).
    Read(Vec<Extent>),
    /// The path resolved to this MFT index (path resolution only).
    Located(u64),
    /// The artifact's bytes, or why it could not be extracted.
    Finish(Result<Vec<u8>, FactError>),
}

/// Takes index sources in order, adding decoded entries to `acc`, up to the
/// first $INDEX_ALLOCATION runlist: the entries gathered, and that runlist
/// if one is left to read.
pub open spec fn listing_outcome(sources: Seq<IndexSourceView>, acc: Seq<IndexEntryView>) -> (
    Seq<IndexEntryView>,
    Option<Seq<DataRun>>,
)
    decreases sources.len(),
{
    if sources.len() == 0 {
        (acc, None)
    } else {
        match sources[0] {
            IndexSourceView::Entries(es) => listing_outcome(sources.drop_first(), acc + es),
            IndexSourceView::Allocation(rs) => (acc, Some(rs)),
        }
    }
}

/// The request for MFT record `inode`: one 1024-byte read at the record's
/// location when $MFT's runlist covers it and the offset fits in 64 bits;
/// otherwise `IndexOutOfRange`, or `ParseError` for an offset past 64 bits.
pub open spec fn record_request(mft_runs: Seq<DataRun>, cluster_bytes: int, inode: u64, r: Action) -> bool {
    match record_location(mft_runs, cluster_bytes, inode as int) {
        None => r is Finish && r->Finish_0 is Err && r->Finish_0->Err_0 == FactError::IndexOutOfRange(inode),
        Some(p) => if p <= u64::MAX {
            r is Read && r->Read_0@ == seq![Extent { offset: p as u64, length: MFT_RECORD_SIZE }]
        } else {
            r is Finish && r->Finish_0 is Err && r->Finish_0->Err_0 is ParseError
        },
    }
}

/// The reads of a plan when every offset fits in 64 bits, else `ParseError`.
pub open spec fn plan_request(plan: Seq<(int, int)>, r: Action) -> bool {
    if plan_fits(plan) {
        r is Read && r->Read_0@.map_values(|e: Extent| (e.offset as int, e.length as int)) == plan
    } else {
        r is Finish && r->Finish_0 is Err && r->Finish_0->Err_0 is ParseError
    }
}

/// What taking the next index sources of a directory does, given the
/// position of the component in the path, the sources left, the entries
/// gathered, the component looked up, whether it is the last, whether only
/// the path is resolved, and $MFT's runlist and cluster size: read the next
/// $INDEX_ALLOCATION stream, or look the component up among all the entries
/// and go on to the child's record (or report the child, for the last
/// component of a path being resolved), or fail with `PathNotFound`.
pub open spec fn listing_step_from(
    position: int,
    pending: Seq<IndexSourceView>,
    found: Seq<IndexEntryView>,
    component: Seq<char>,
    last: bool,
    locating: bool,
    mft_runs: Seq<DataRun>,
    cluster_bytes: int,
    r: Action,
    next: Collection,
) -> bool {
    let (acc, more) = listing_outcome(pending, found);
    match more {
        Some(rs) => {
            &&& plan_request(extent_plan(rs, cluster_bytes, DIRECTORY_STREAM_LIMIT as int), r)
            &&& r is Read ==> next.stage() == Stage::DirectoryStream && next.position() == position
        },
        None => match first_match(acc, component) {
            None => r is Finish && r->Finish_0 is Err && r->Finish_0->Err_0 is PathNotFound
                && r->Finish_0->Err_0->PathNotFound_0@ == component,
            Some(child) => if last && locating {
                r is Located && r->Located_0 == child
            } else {
                &&& record_request(mft_runs, cluster_bytes, child, r)
                &&& r is Read ==> next.inode() == child && next.position() == position + 1
                    && next.stage() == (if last {
                    Stage::TargetRecord
                } else {
                    Stage::DirectoryRecord
                })
            },
        },
    }
}

/// Path resolution ignores ASCII case step by step: when the component
/// looked up is replaced by one equal to it under ASCII case folding, a
/// listing step that did not end in `PathNotFound` is still a valid step,
/// with the same action and the same next state.
pub proof fn lemma_listing_step_ignores_ascii_case(
    position: int,
    pending: Seq<IndexSourceView>,
    found: Seq<IndexEntryView>,
    a: Seq<char>,
    b: Seq<char>,
    last: bool,
    locating: bool,
    mft_runs: Seq<DataRun>,
    cluster_bytes: int,
    r: Action,
    next: Collection,
)
    requires
        eq_ignore_ascii_case(a, b),
        listing_step_from(position, pending, found, a, last, locating, mft_runs, cluster_bytes, r, next),
        !(r is Finish && r->Finish_0 is Err && r->Finish_0->Err_0 is PathNotFound),
    ensures
        listing_step_from(position, pending, found, b, last, locating, mft_runs, cluster_bytes, r, next),
{
    let (acc, more) = listing_outcome(pending, found);
    lemma_lookup_ignores_ascii_case(acc, a, b);
}

/// What a [`Collection`] waits for.
#[derive(Debug, Clone, Copy, PartialEq, Eq, Structural)]
pub enum Stage {
    /// The MFT record of the directory being listed.
    DirectoryRecord,
    /// The $INDEX_ALLOCATION stream of the directory being listed.
    DirectoryStream,
    /// The MFT record of the artifact.
    TargetRecord,
    /// The artifact's non-resident data.
    TargetData,
    /// Nothing: the collection is over.
    Done,
}

/// The decisions of one artifact extraction: resolving the path from the
/// root directory, listing each directory on the way, reading the
/// artifact's record and its data. The driver performs each `Read` and
/// hands the bytes back.
#[derive(Debug)]
pub struct Collection {
    reader: MftReader,
    segments: Vec<String>,
    next_segment: usize,
    current: u64,
    sources: Vec<IndexSource>,
    entries: Vec<IndexEntry>,
    locate_only: bool,
    stage: Stage,
}

impl Collection {
    /// The stage the collection is in.
    pub closed spec fn stage(&self) -> Stage {
        self.stage
    }

    /// Bytes per cluster of the volume.
    pub closed spec fn cluster_bytes(&self) -> int {
        self.reader.cluster_bytes()
    }

    /// $MFT's runlist.
    pub closed spec fn mft_runs(&self) -> Seq<DataRun> {
        self.reader.runs()
    }

    /// The MFT index whose record or data is awaited.
    pub closed spec fn inode(&self) -> u64 {
        self.current
    }

    /// The index sources of the directory being listed that are still to be taken.
    pub closed spec fn pending(&self) -> Seq<IndexSourceView> {
        self.sources@.map_values(|s: IndexSource| s@)
    }

    /// The entries of the directory being listed gathered so far.
    pub closed spec fn found(&self) -> Seq<IndexEntryView> {
        self.entries@.map_values(|e: IndexEntry| e@)
    }

    /// The components of the path being resolved.
    pub closed spec fn parts(&self) -> Seq<Seq<char>> {
        self.segments@.map_values(|s: String| s@)
    }

    /// The position in `parts` of the component looked up next.
    pub closed spec fn position(&self) -> int {
        self.next_segment as int
    }

    /// The path component looked up in the directory being listed.
    pub open spec fn component(&self) -> Seq<char> {
        self.parts()[self.position()]
    }

    /// The component looked up is the last of the path.
    pub closed spec fn at_last_component(&self) -> bool {
        self.next_segment + 1 == self.segments@.len()
    }

    /// The collection only resolves a path.
    pub closed spec fn locating(&self) -> bool {
        self.locate_only
    }

    /// What taking the next index sources does (see [`listing_step_from`]).
    pub open spec fn listing_step(&self, r: Action, next: Collection) -> bool {
        listing_step_from(
            self.position(),
            self.pending(),
            self.found(),
            self.component(),
            self.at_last_component(),
            self.locating(),
            self.mft_runs(),
            self.cluster_bytes(),
            r,
            next,
        )
    }

    /// What the record of the directory being listed leads to.
    pub open spec fn directory_record_step(&self, bytes: Seq<u8>, r: Action, next: Collection) -> bool {
        match record_fixup(bytes) {
            None => r is Finish && r->Finish_0 is Err && r->Finish_0->Err_0 is ParseError,
            Some(f) => match directory_sources_of(f) {
                None => r is Finish && r->Finish_0 is Err && (r->Finish_0->Err_0 is ParseError
                    || r->Finish_0->Err_0 is UnsupportedFormat),
                Some(sources) => listing_step_from(
                    self.position(),
                    sources,
                    seq![],
                    self.component(),
                    self.at_last_component(),
                    self.locating(),
                    self.mft_runs(),
                    self.cluster_bytes(),
                    r,
                    next,
                ),
            },
        }
    }

    /// What an $INDEX_ALLOCATION stream of the directory being listed leads to.
    pub open spec fn directory_stream_step(&self, bytes: Seq<u8>, r: Action, next: Collection) -> bool {
        listing_step_from(
            self.position(),
            self.pending(),
            self.found() + allocation_entries_from(bytes, 0),
            self.component(),
            self.at_last_component(),
            self.locating(),
            self.mft_runs(),
            self.cluster_bytes(),
            r,
            next,
        )
    }

    /// What the artifact's record leads to: its resident bytes, no bytes, the
    /// reads of its non-resident data, or the error for its $DATA.
    pub open spec fn target_record_step(&self, bytes: Seq<u8>, r: Action, next: Collection) -> bool {
        match record_fixup(bytes) {
            None => r is Finish && r->Finish_0 is Err && r->Finish_0->Err_0 is ParseError,
            Some(f) => match data_of_record(f) {
                DataSourceView::Resident(b) => r is Finish && r->Finish_0 is Ok && r->Finish_0->Ok_0@
                    == b,
                DataSourceView::Absent => r is Finish && r->Finish_0 is Ok && r->Finish_0->Ok_0@.len()
                    == 0,
                DataSourceView::NonResident(rs, size) => {
                    &&& plan_request(extent_plan(rs, self.cluster_bytes(), size as int), r)
                    &&& r is Read ==> next.stage() == Stage::TargetData
                },
                DataSourceView::Malformed => r is Finish && r->Finish_0 is Err && r->Finish_0->Err_0 is ParseError,
                DataSourceView::Unsupported => r is Finish && r->Finish_0 is Err
                    && r->Finish_0->Err_0 is UnsupportedFormat,
            },
        }
    }

    pub closed spec fn wf(&self) -> bool {
        &&& self.next_segment <= self.segments@.len()
        &&& (self.stage == Stage::DirectoryRecord || self.stage == Stage::DirectoryStream)
            ==> self.next_segment < self.segments@.len()
    }

    /// Asks for the MFT record of `inode`.
    fn request_record(&mut self, inode: u64, stage: Stage) -> (r: Action)
        requires
            old(self).wf(),
            stage != Stage::DirectoryStream,
            stage == Stage::DirectoryRecord ==> old(self).next_segment < old(self).segments@.len(),
        ensures
            final(self).wf(),
            final(self).cluster_bytes() == old(self).cluster_bytes(),
            final(self).mft_runs() == old(self).mft_runs(),
            final(self).parts() == old(self).parts(),
            final(self).locating() == old(self).locating(),
            final(self).inode() == inode,
            final(self).position() == old(self).position(),
            r is Read ==> final(self).stage() == stage,
            record_request(old(self).mft_runs(), old(self).cluster_bytes(), inode, r),
            !(r is Read) ==> final(self).stage() == Stage::Done,
    {
        self.current = inode;
        match self.reader.record_offset(inode) {
            Ok(offset) => {
                self.stage = stage;
                let mut ex: Vec<Extent> = Vec::new();
                ex.push(Extent { offset, length: MFT_RECORD_SIZE });
                Action::Read(ex)
            },
            Err(e) => {
                self.stage = Stage::Done;
                Action::Finish(Err(e))
            },
        }
    }

    fn begin(reader: MftReader, path: &str, locate_only: bool) -> (r: (Collection, Action))
        ensures
            r.0.wf(),
            r.0.cluster_bytes() == reader.cluster_bytes(),
            r.0.mft_runs() == reader.runs(),
            r.0.parts() == path_parts(path@),
            r.0.position() == 0,
            r.0.locating() == locate_only,
            Self::root_request(reader, path@, locate_only, r.0, r.1),
    {
        let mut c = Collection {
            reader,
            segments: path_components(path),
            next_segment: 0,
            current: ROOT_DIRECTORY_INODE,
            sources: Vec::new(),
            entries: Vec::new(),
            locate_only,
            stage: Stage::Done,
        };
        if c.segments.len() == 0 {
            if locate_only {
                return (c, Action::Located(ROOT_DIRECTORY_INODE));
            }
            let a = c.request_record(ROOT_DIRECTORY_INODE, Stage::TargetRecord);
            (c, a)
        } else {
            let a = c.request_record(ROOT_DIRECTORY_INODE, Stage::DirectoryRecord);
            (c, a)
        }
    }

    /// How a collection that resolves `path` from the root directory starts:
    /// an empty path being resolved is the root itself; otherwise the root's
    /// record is read, as the directory to list or, for an empty path, as the
    /// artifact's record.
    pub open spec fn root_request(reader: MftReader, path: Seq<char>, locating: bool, c: Collection, r: Action) -> bool {
        if path_parts(path).len() == 0 && locating {
            r is Located && r->Located_0 == ROOT_DIRECTORY_INODE
        } else {
            &&& record_request(reader.runs(), reader.cluster_bytes(), ROOT_DIRECTORY_INODE, r)
            &&& r is Read ==> c.inode() == ROOT_DIRECTORY_INODE && c.stage() == (if path_parts(path).len()
                == 0 {
                Stage::TargetRecord
            } else {
                Stage::DirectoryRecord
            })
        }
    }

    /// Starts extracting `target`: a system file is read by its fixed
    /// index, a hive is first looked up by its path from the root directory.
    pub fn start(reader: MftReader, target: ArtifactTarget) -> (r: (Collection, Action))
        ensures
            r.0.wf(),
            r.0.cluster_bytes() == reader.cluster_bytes(),
            r.0.mft_runs() == reader.runs(),
            !r.0.locating(),
            fixed_index(target) is Some ==> {
                &&& record_request(reader.runs(), reader.cluster_bytes(), fixed_index(target)->Some_0, r.1)
                &&& r.1 is Read ==> r.0.stage() == Stage::TargetRecord && r.0.inode() == fixed_index(
                    target,
                )->Some_0
            },
            fixed_index(target) is None ==> {
                &&& r.0.parts() == path_parts(fixed_path(target)->Some_0)
                &&& r.0.position() == 0
                &&& Self::root_request(reader, fixed_path(target)->Some_0, false, r.0, r.1)
            },
    {
        match target.get_index() {
            Some(index) => {
                let mut c = Collection {
                    reader,
                    segments: Vec::new(),
                    next_segment: 0,
                    current: index,
                    sources: Vec::new(),
                    entries: Vec::new(),
                    locate_only: false,
                    stage: Stage::Done,
                };
                let a = c.request_record(index, Stage::TargetRecord);
                (c, a)
            },
            None => match target.get_path() {
                Some(path) => Self::begin(reader, path, false),
                None => {
                    let c = Collection {
                        reader,
                        segments: Vec::new(),
                        next_segment: 0,
                        current: ROOT_DIRECTORY_INODE,
                        sources: Vec::new(),
                        entries: Vec::new(),
                        locate_only: false,
                        stage: Stage::Done,
                    };
                    (c, Action::Finish(Err(parse_error("Artifact", "target has neither index nor path"))))
                },
            },
        }
    }

    /// Starts resolving a `\`-separated path from the root directory; the
    /// collection ends with `Located(inode)` or with an error.
    pub fn locate(reader: MftReader, path: &str) -> (r: (Collection, Action))
        ensures
            r.0.wf(),
            r.0.cluster_bytes() == reader.cluster_bytes(),
            r.0.mft_runs() == reader.runs(),
            r.0.parts() == path_parts(path@),
            r.0.position() == 0,
            r.0.locating(),
            Self::root_request(reader, path@, true, r.0, r.1),
    {
        Self::begin(reader, path, true)
    }

    /// Takes the next index source of the directory being listed; when none
    /// is left, looks the current path component up among the entries.
    fn advance_listing(&mut self) -> (r: Action)
        requires
            old(self).wf(),
            old(self).next_segment < old(self).segments@.len(),
        ensures
            final(self).wf(),
            final(self).cluster_bytes() == old(self).cluster_bytes(),
            final(self).mft_runs() == old(self).mft_runs(),
            final(self).parts() == old(self).parts(),
            final(self).locating() == old(self).locating(),
            !(r is Read) ==> final(self).stage() == Stage::Done,
            old(self).listing_step(r, *final(self)),
    {
        while self.sources.len() > 0
            invariant
                self.wf(),
                self.next_segment < self.segments@.len(),
                self.cluster_bytes() == old(self).cluster_bytes(),
                self.next_segment == old(self).next_segment,
                self.segments@ == old(self).segments@,
                self.locate_only == old(self).locate_only,
                self.reader == old(self).reader,
                listing_outcome(self.pending(), self.found()) == listing_outcome(
                    old(self).pending(),
                    old(self).found(),
                ),
            decreases self.sources@.len(),
        {
            let ghost before = self.pending();
            let ghost acc = self.found();
            let source = self.sources.remove(0);
            proof {
                assert(self.pending() =~= before.drop_first());
                assert(before[0] == source@);
            }
            match source {
                IndexSource::Entries(es) => {
                    let mut es = es;
                    let ghost ev = es@.map_values(|e: IndexEntry| e@);
                    self.entries.append(&mut es);
                    proof {
                        assert(self.found() =~= acc + ev);
                    }
                },
                IndexSource::Allocation(runs) => {
                    match self.reader.extents(runs.as_slice(), DIRECTORY_STREAM_LIMIT) {
                        Ok(ex) => {
                            self.stage = Stage::DirectoryStream;
                            return Action::Read(ex);
                        },
                        Err(e) => {
                            self.stage = Stage::Done;
                            return Action::Finish(Err(e));
                        },
                    }
                },
            }
        }
        proof {
            assert(self.pending() =~= Seq::<IndexSourceView>::empty());
        }
        let found = find_child(self.entries.as_slice(), self.segments[self.next_segment].as_str());
        match found {
            None => {
                let name = self.segments[self.next_segment].clone();
                self.stage = Stage::Done;
                Action::Finish(Err(FactError::PathNotFound(name)))
            },
            Some(child) => {
                proof {
                    assert(self.pending() =~= Seq::<IndexSourceView>::empty());
                }
                let n = self.segments.len();
                self.stage = Stage::Done;
                self.next_segment = self.next_segment + 1;
                self.entries = Vec::new();
                if self.next_segment == n {
                    if self.locate_only {
                        self.current = child;
                        self.stage = Stage::Done;
                        Action::Located(child)
                    } else {
                        self.request_record(child, Stage::TargetRecord)
                    }
                } else {
                    self.request_record(child, Stage::DirectoryRecord)
                }
            },
        }
    }

    /// Gives back the reader the collection was started with.
    pub fn into_reader(self) -> (r: MftReader)
        ensures
            r.cluster_bytes() == self.cluster_bytes(),
            r.runs() == self.mft_runs(),
    {
        self.reader
    }

    /// Takes the outcome of the last `Read` and decides what comes next.
    pub fn resume(&mut self, event: Result<Vec<u8>, FactError>) -> (r: Action)
        requires
            old(self).wf(),
        ensures
            final(self).wf(),
            final(self).cluster_bytes() == old(self).cluster_bytes(),
            final(self).mft_runs() == old(self).mft_runs(),
            final(self).parts() == old(self).parts(),
            final(self).locating() == old(self).locating(),
            !(r is Read) ==> final(self).stage() == Stage::Done,
            old(self).stage() == Stage::Done ==> r is Finish && r->Finish_0 is Err,
            old(self).stage() != Stage::Done && event is Err ==> r is Finish && r->Finish_0 == event,
            old(self).stage() == Stage::TargetData && event is Ok ==> r is Finish && r->Finish_0
                == event,
            old(self).stage() == Stage::DirectoryRecord && event is Ok ==> old(self).directory_record_step(
                event->Ok_0@,
                r,
                *final(self),
            ),
            old(self).stage() == Stage::DirectoryStream && event is Ok ==> old(self).directory_stream_step(
                event->Ok_0@,
                r,
                *final(self),
            ),
            old(self).stage() == Stage::TargetRecord && event is Ok ==> old(self).target_record_step(
                event->Ok_0@,
                r,
                *final(self),
            ),
    {
        if self.stage == Stage::Done {
            return Action::Finish(Err(parse_error("Collection", "resumed after it finished")));
        }
        let bytes = match event {
            Ok(b) => b,
            Err(e) => {
                self.stage = Stage::Done;
                return Action::Finish(Err(e));
            },
        };
        match self.stage {
            Stage::DirectoryRecord => self.on_directory_record(bytes),
            Stage::DirectoryStream => self.on_directory_stream(bytes),
            Stage::TargetRecord => self.on_target_record(bytes),
            _ => {
                self.stage = Stage::Done;
                Action::Finish(Ok(bytes))
            },
        }
    }

    fn on_directory_record(&mut self, bytes: Vec<u8>) -> (r: Action)
        requires
            old(self).wf(),
            old(self).stage() == Stage::DirectoryRecord,
        ensures
            final(self).wf(),
            final(self).cluster_bytes() == old(self).cluster_bytes(),
            final(self).mft_runs() == old(self).mft_runs(),
            final(self).parts() == old(self).parts(),
            final(self).locating() == old(self).locating(),
            !(r is Read) ==> final(self).stage() == Stage::Done,
            old(self).directory_record_step(bytes@, r, *final(self)),
    {
        let rec = match fixup_record(bytes) {
            Ok(rec) => rec,
            Err(e) => {
                self.stage = Stage::Done;
                return Action::Finish(Err(e));
            },
        };
        match directory_sources(rec.as_slice()) {
            Ok(sources) => {
                self.sources = sources;
                self.entries = Vec::new();
                proof {
                    assert(self.found() =~= Seq::<IndexEntryView>::empty());
                }
                self.advance_listing()
            },
            Err(e) => {
                self.stage = Stage::Done;
                Action::Finish(Err(e))
            },
        }
    }

    fn on_directory_stream(&mut self, bytes: Vec<u8>) -> (r: Action)
        requires
            old(self).wf(),
            old(self).stage() == Stage::DirectoryStream,
        ensures
            final(self).wf(),
            final(self).cluster_bytes() == old(self).cluster_bytes(),
            final(self).mft_runs() == old(self).mft_runs(),
            final(self).parts() == old(self).parts(),
            final(self).locating() == old(self).locating(),
            !(r is Read) ==> final(self).stage() == Stage::Done,
            old(self).directory_stream_step(bytes@, r, *final(self)),
    {
        let ghost acc = self.found();
        let mut found = index_allocation_entries(bytes.as_slice());
        let ghost fv = found@.map_values(|e: IndexEntry| e@);
        self.entries.append(&mut found);
        proof {
            assert(self.found() =~= acc + fv);
        }
        self.advance_listing()
    }

    fn on_target_record(&mut self, bytes: Vec<u8>) -> (r: Action)
        requires
            old(self).wf(),
            old(self).stage() == Stage::TargetRecord,
        ensures
            final(self).wf(),
            final(self).cluster_bytes() == old(self).cluster_bytes(),
            final(self).mft_runs() == old(self).mft_runs(),
            final(self).parts() == old(self).parts(),
            final(self).locating() == old(self).locating(),
            !(r is Read) ==> final(self).stage() == Stage::Done,
            old(self).target_record_step(bytes@, r, *final(self)),
    {
        let rec = match fixup_record(bytes) {
            Ok(rec) => rec,
            Err(e) => {
                self.stage = Stage::Done;
                return Action::Finish(Err(e));
            },
        };
        self.stage = Stage::Done;
        match data_source(rec.as_slice()) {
            Ok(DataSource::Resident(b)) => Action::Finish(Ok(b)),
            Ok(DataSource::Absent) => Action::Finish(Ok(Vec::new())),
            Ok(DataSource::NonResident { runs, size }) => {
                match self.reader.extents(runs.as_slice(), size) {
                    Ok(ex) => {
                        self.stage = Stage::TargetData;
                        Action::Read(ex)
                    },
                    Err(e) => Action::Finish(Err(e)),
                }
            },
            Err(e) => Action::Finish(Err(e)),
        }
    }
}

} // verus!
