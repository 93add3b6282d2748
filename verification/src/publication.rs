//! A publication, laid out in the header's values.
//!
//! A publisher writes its snapshot to a file and a surface that reads files
//! reads it here. Reading the text belongs to whoever owns the file's shape and
//! is handed in; what it read is laid out here, every text borrowed from it.
//! Measures a surface draws by, such as a node's load, are carried through as
//! they are, whatever type they have.

use vstd::prelude::*;
use vstd::string::*;

use crate::abi::Status;
use crate::boundary;
use crate::boundary::{fill_copied, nothing_said, refuse, scope_text, Filled, Written};
use crate::observe::{Count, Health, NodeKind, Origin, Pattern};
use crate::rule;
use crate::wire;
use crate::wire::{
    wire_counted, wire_health, wire_kind, wire_origin, wire_pattern, CountedCodes, HealthCodes,
};

verus! {

/// What one scope was found to be.
#[derive(Debug)]
pub struct HealthRecord {
    pub scope: String,
    pub health: Health,
    pub severity: u8,
    pub evidence: String,
    pub observed_unix_nanos: i64,
}

/// One place of a topology.
#[derive(Debug)]
pub struct TopologyNode<M> {
    pub id: String,
    pub parent: String,
    pub label: String,
    pub kind: NodeKind,
    pub scope: String,
    pub state: Health,
    pub origin: Origin,
    pub load: M,
    pub activity: M,
    pub evidence: String,
}

/// One link of a topology.
#[derive(Debug)]
pub struct TopologyLink<M> {
    pub id: String,
    pub from: String,
    pub to: String,
    pub pattern: Pattern,
    pub origin: Origin,
    pub protocol: String,
    pub state: Health,
    pub volume: u64,
    pub rate: M,
    pub latency_ms: M,
    pub progress: M,
    pub attempts: u32,
    pub evidence: String,
}

/// What a publisher drew of its surroundings.
#[derive(Debug)]
pub struct Topology<M> {
    pub source: String,
    pub observed_unix_nanos: i64,
    pub nodes: Vec<TopologyNode<M>>,
    pub links: Vec<TopologyLink<M>>,
}

/// What a publisher says of its run.
#[derive(Debug)]
pub struct Run {
    pub cluster: String,
    pub stress: String,
    pub tests: Vec<String>,
    pub nodes: Vec<String>,
    pub capabilities: Vec<String>,
    pub online: Vec<String>,
}

/// A publication as it was read.
#[derive(Debug)]
pub struct Publication<M> {
    pub source: String,
    pub node: String,
    pub records: Vec<HealthRecord>,
    pub counts: Vec<Count>,
    pub run: Option<Run>,
    pub topology: Option<Topology<M>>,
}

/// A record in the header's values.
#[derive(Clone, Copy, Debug)]
pub struct HealthEntry<'a> {
    pub scope: &'a String,
    pub health: i32,
    pub severity: u8,
    pub evidence: &'a String,
    pub observed_unix_nanos: i64,
}

/// A count in the header's values.
#[derive(Clone, Copy, Debug)]
pub struct Measurement<'a> {
    pub scope: &'a String,
    pub counted: i32,
    pub value: u64,
    pub window_start_unix_nanos: i64,
    pub window_end_unix_nanos: i64,
    pub observed_unix_nanos: i64,
}

/// A place of a topology in the header's values.
#[derive(Clone, Copy, Debug)]
pub struct NodeEntry<'a, M> {
    pub id: &'a String,
    pub parent: &'a String,
    pub label: &'a String,
    pub kind: i32,
    pub scope: &'a String,
    pub health: i32,
    pub origin: i32,
    pub load: M,
    pub activity: M,
    pub evidence: &'a String,
}

/// A link of a topology in the header's values.
#[derive(Clone, Copy, Debug)]
pub struct LinkEntry<'a, M> {
    pub id: &'a String,
    pub from: &'a String,
    pub to: &'a String,
    pub pattern: i32,
    pub origin: i32,
    pub protocol: &'a String,
    pub health: i32,
    pub volume: u64,
    pub rate: M,
    pub latency_ms: M,
    pub progress: M,
    pub attempts: u32,
    pub evidence: &'a String,
}

/// A publication's lists in the header's values.
#[derive(Debug)]
pub struct Read<'a, M> {
    pub records: Vec<HealthEntry<'a>>,
    pub counts: Vec<Measurement<'a>>,
    pub nodes: Vec<NodeEntry<'a, M>>,
    pub links: Vec<LinkEntry<'a, M>>,
}

/// Who published, where, and the run's and the topology's single values.
#[derive(Debug)]
pub struct PublicationHead<'a> {
    pub source: &'a str,
    pub node: &'a str,
    pub has_run: u8,
    pub cluster: &'a str,
    pub stress: &'a str,
    pub has_topology: u8,
    pub topology_source: &'a str,
    pub topology_observed_unix_nanos: i64,
}

/// A record in the header's values.
pub open spec fn laid_record<'a>(record: &'a HealthRecord, codes: HealthCodes) -> HealthEntry<'a> {
    HealthEntry {
        scope: &record.scope,
        health: codes.code(record.health),
        severity: record.severity,
        evidence: &record.evidence,
        observed_unix_nanos: record.observed_unix_nanos,
    }
}

/// A count in the header's values.
pub open spec fn laid_count<'a>(count: &'a Count, codes: CountedCodes) -> Measurement<'a> {
    Measurement {
        scope: &count.scope,
        counted: codes.code(count.counted),
        value: count.value,
        window_start_unix_nanos: count.window_start_unix_nanos,
        window_end_unix_nanos: count.window_end_unix_nanos,
        observed_unix_nanos: count.observed_unix_nanos,
    }
}

/// `entry` is a place in the header's values.
pub open spec fn laid_node<M>(
    node: TopologyNode<M>,
    codes: HealthCodes,
    entry: NodeEntry<'_, M>,
) -> bool {
    &&& *entry.id == node.id
    &&& *entry.parent == node.parent
    &&& *entry.label == node.label
    &&& wire::reads_as(wire::kinds(), entry.kind, Some(node.kind))
    &&& *entry.scope == node.scope
    &&& entry.health == codes.code(node.state)
    &&& wire::reads_as(wire::origins(), entry.origin, Some(node.origin))
    &&& entry.load == node.load
    &&& entry.activity == node.activity
    &&& *entry.evidence == node.evidence
}

/// `entry` is a link in the header's values.
pub open spec fn laid_link<M>(
    link: TopologyLink<M>,
    codes: HealthCodes,
    entry: LinkEntry<'_, M>,
) -> bool {
    &&& *entry.id == link.id
    &&& *entry.from == link.from
    &&& *entry.to == link.to
    &&& wire::reads_as(wire::patterns(), entry.pattern, Some(link.pattern))
    &&& wire::reads_as(wire::origins(), entry.origin, Some(link.origin))
    &&& *entry.protocol == link.protocol
    &&& entry.health == codes.code(link.state)
    &&& entry.volume == link.volume
    &&& entry.rate == link.rate
    &&& entry.latency_ms == link.latency_ms
    &&& entry.progress == link.progress
    &&& entry.attempts == link.attempts
    &&& *entry.evidence == link.evidence
}

/// The places a publication draws.
pub open spec fn drawn_nodes<M>(publication: Publication<M>) -> Seq<TopologyNode<M>> {
    match publication.topology {
        Some(topology) => topology.nodes@,
        None => Seq::empty(),
    }
}

/// The links a publication draws.
pub open spec fn drawn_links<M>(publication: Publication<M>) -> Seq<TopologyLink<M>> {
    match publication.topology {
        Some(topology) => topology.links@,
        None => Seq::empty(),
    }
}

/// Every record, each in its place.
pub open spec fn laid_records(
    records: Seq<HealthRecord>,
    codes: HealthCodes,
    entries: Seq<HealthEntry<'_>>,
) -> bool {
    &&& entries.len() == records.len()
    &&& forall|i: int|
        0 <= i < records.len() ==> #[trigger] entries[i] == laid_record(&records[i], codes)
}

/// Every count, each in its place.
pub open spec fn laid_counts(
    counts: Seq<Count>,
    codes: CountedCodes,
    entries: Seq<Measurement<'_>>,
) -> bool {
    &&& entries.len() == counts.len()
    &&& forall|i: int|
        0 <= i < counts.len() ==> #[trigger] entries[i] == laid_count(&counts[i], codes)
}

/// Every place, each in its place.
pub open spec fn laid_nodes<M>(
    nodes: Seq<TopologyNode<M>>,
    codes: HealthCodes,
    entries: Seq<NodeEntry<'_, M>>,
) -> bool {
    &&& entries.len() == nodes.len()
    &&& forall|i: int|
        0 <= i < nodes.len() ==> laid_node(nodes[i], codes, #[trigger] entries[i])
}

/// Every link, each in its place.
pub open spec fn laid_links<M>(
    links: Seq<TopologyLink<M>>,
    codes: HealthCodes,
    entries: Seq<LinkEntry<'_, M>>,
) -> bool {
    &&& entries.len() == links.len()
    &&& forall|i: int|
        0 <= i < links.len() ==> laid_link(links[i], codes, #[trigger] entries[i])
}

/// `read` is a publication laid out: every record, count, place and link, each
/// in its place.
pub open spec fn laid_out<M>(
    publication: Publication<M>,
    moods: HealthCodes,
    kinds: CountedCodes,
    read: Read<'_, M>,
) -> bool {
    &&& laid_records(publication.records@, moods, read.records@)
    &&& laid_counts(publication.counts@, kinds, read.counts@)
    &&& laid_nodes(drawn_nodes(publication), moods, read.nodes@)
    &&& laid_links(drawn_links(publication), moods, read.links@)
}

fn lay_records<'a>(records: &'a Vec<HealthRecord>, codes: &HealthCodes) -> (r: Vec<HealthEntry<'a>>)
    ensures
        laid_records(records@, *codes, r@),
{
    let mut entries: Vec<HealthEntry<'a>> = Vec::new();
    let mut at: usize = 0;
    while at < records.len()
        invariant
            at <= records@.len(),
            entries@.len() == at,
            forall|i: int|
                0 <= i < at ==> #[trigger] entries@[i] == laid_record(&records@[i], *codes),
        decreases records@.len() - at,
    {
        let record = &records[at];
        entries.push(
            HealthEntry {
                scope: &record.scope,
                health: wire_health(codes, record.health),
                severity: record.severity,
                evidence: &record.evidence,
                observed_unix_nanos: record.observed_unix_nanos,
            },
        );
        at += 1;
    }
    entries
}

/// Counts in the header's values, in their order.
pub(crate) fn lay_counts<'a>(counts: &'a Vec<Count>, codes: &CountedCodes) -> (r: Vec<
    Measurement<'a>,
>)
    ensures
        laid_counts(counts@, *codes, r@),
{
    let mut entries: Vec<Measurement<'a>> = Vec::new();
    let mut at: usize = 0;
    while at < counts.len()
        invariant
            at <= counts@.len(),
            entries@.len() == at,
            forall|i: int| 0 <= i < at ==> #[trigger] entries@[i] == laid_count(&counts@[i], *codes),
        decreases counts@.len() - at,
    {
        let count = &counts[at];
        entries.push(
            Measurement {
                scope: &count.scope,
                counted: wire_counted(codes, count.counted),
                value: count.value,
                window_start_unix_nanos: count.window_start_unix_nanos,
                window_end_unix_nanos: count.window_end_unix_nanos,
                observed_unix_nanos: count.observed_unix_nanos,
            },
        );
        at += 1;
    }
    entries
}

fn lay_nodes<'a, M: Copy>(nodes: &'a Vec<TopologyNode<M>>, codes: &HealthCodes) -> (r: Vec<
    NodeEntry<'a, M>,
>)
    ensures
        laid_nodes(nodes@, *codes, r@),
{
    let mut entries: Vec<NodeEntry<'a, M>> = Vec::new();
    let mut at: usize = 0;
    while at < nodes.len()
        invariant
            at <= nodes@.len(),
            entries@.len() == at,
            forall|i: int| 0 <= i < at ==> laid_node(nodes@[i], *codes, #[trigger] entries@[i]),
        decreases nodes@.len() - at,
    {
        let node = &nodes[at];
        entries.push(
            NodeEntry {
                id: &node.id,
                parent: &node.parent,
                label: &node.label,
                kind: wire_kind(node.kind),
                scope: &node.scope,
                health: wire_health(codes, node.state),
                origin: wire_origin(node.origin),
                load: node.load,
                activity: node.activity,
                evidence: &node.evidence,
            },
        );
        at += 1;
    }
    entries
}

fn lay_links<'a, M: Copy>(links: &'a Vec<TopologyLink<M>>, codes: &HealthCodes) -> (r: Vec<
    LinkEntry<'a, M>,
>)
    ensures
        laid_links(links@, *codes, r@),
{
    let mut entries: Vec<LinkEntry<'a, M>> = Vec::new();
    let mut at: usize = 0;
    while at < links.len()
        invariant
            at <= links@.len(),
            entries@.len() == at,
            forall|i: int| 0 <= i < at ==> laid_link(links@[i], *codes, #[trigger] entries@[i]),
        decreases links@.len() - at,
    {
        let link = &links[at];
        entries.push(
            LinkEntry {
                id: &link.id,
                from: &link.from,
                to: &link.to,
                pattern: wire_pattern(link.pattern),
                origin: wire_origin(link.origin),
                protocol: &link.protocol,
                health: wire_health(codes, link.state),
                volume: link.volume,
                rate: link.rate,
                latency_ms: link.latency_ms,
                progress: link.progress,
                attempts: link.attempts,
                evidence: &link.evidence,
            },
        );
        at += 1;
    }
    entries
}

impl<'a, M: Copy> Read<'a, M> {
    /// Lay a publication out in the header's values.
    pub fn of(
        publication: &'a Publication<M>,
        moods: &HealthCodes,
        kinds: &CountedCodes,
    ) -> (r: Self)
        ensures
            laid_out(*publication, *moods, *kinds, r),
    {
        let records = lay_records(&publication.records, moods);
        let counts = lay_counts(&publication.counts, kinds);
        let (nodes, links) = match &publication.topology {
            Some(topology) => (
                lay_nodes(&topology.nodes, moods),
                lay_links(&topology.links, moods),
            ),
            None => (Vec::new(), Vec::new()),
        };
        Read { records, counts, nodes, links }
    }
}

/// `head` says who published and where, and of a run or a topology that is not
/// there that it is not.
pub open spec fn headed<M>(publication: Publication<M>, head: PublicationHead<'_>) -> bool {
    &&& head.source@ == publication.source@
    &&& head.node@ == publication.node@
    &&& match publication.run {
        Some(run) => head.has_run == 1 && head.cluster@ == run.cluster@ && head.stress@
            == run.stress@,
        None => head.has_run == 0 && head.cluster@ == ""@ && head.stress@ == ""@,
    }
    &&& match publication.topology {
        Some(drawn) => head.has_topology == 1 && head.topology_source@ == drawn.source@
            && head.topology_observed_unix_nanos == drawn.observed_unix_nanos,
        None => head.has_topology == 0 && head.topology_source@ == ""@
            && head.topology_observed_unix_nanos == 0,
    }
}

impl<M> Publication<M> {
    pub fn head(&self) -> (r: PublicationHead<'_>)
        ensures
            headed(*self, r),
    {
        let (has_run, cluster, stress) = match &self.run {
            Some(run) => (1u8, run.cluster.as_str(), run.stress.as_str()),
            None => (0u8, "", ""),
        };
        let (has_topology, topology_source, topology_observed_unix_nanos) = match &self.topology {
            Some(drawn) => (1u8, drawn.source.as_str(), drawn.observed_unix_nanos),
            None => (0u8, "", 0i64),
        };
        PublicationHead {
            source: self.source.as_str(),
            node: self.node.as_str(),
            has_run,
            cluster,
            stress,
            has_topology,
            topology_source,
            topology_observed_unix_nanos,
        }
    }
}

/// What reading a text came to: what was read and nothing said, or nothing and
/// the reader's refusal.
#[derive(Debug)]
pub struct Opened<T> {
    pub status: Status,
    pub held: Option<T>,
    pub report: Written,
}

/// `opened` is what the reader said of a text.
pub open spec fn opens<T>(opened: Opened<T>, said: Result<T, String>, cap: usize) -> bool {
    match said {
        Ok(read) => {
            &&& opened.status == Status::Okay
            &&& opened.held == Some(read)
            &&& opened.report.bytes@.len() == 0
            &&& opened.report.length == 0
        },
        Err(sentence) => {
            &&& opened.status == Status::Invalid
            &&& opened.held is None
            &&& boundary::writes(opened.report, sentence@, cap)
        },
    }
}

/// Put what a reader said of a text into the header's shape.
pub(crate) fn open<T>(said: Result<T, String>, cap: usize) -> (r: Opened<T>)
    ensures
        opens(r, said, cap),
{
    match said {
        Ok(read) => Opened { status: Status::Okay, held: Some(read), report: nothing_said() },
        Err(sentence) => Opened {
            status: Status::Invalid,
            held: None,
            report: refuse(sentence.as_str(), cap),
        },
    }
}

/// Read a publication, or say in the reader's words why not.
pub fn xmip_publication_read_v1<'a, M, F: Fn(&'a str) -> Result<Publication<M>, String>>(
    text: Option<&'a [u8]>,
    cap: usize,
    read: F,
) -> (r: Result<Opened<Publication<M>>, Status>)
    requires
        rule::takes_text(read),
    ensures
        (r is Ok) == (boundary::reading(text) is Some),
        r matches Err(status) ==> status == Status::Malformed,
        r matches Ok(opened) ==> exists|said: Result<Publication<M>, String>| #[trigger]
            rule::says(read, boundary::reading(text)->0, said) && opens(opened, said, cap),
{
    match scope_text(text) {
        Some(text) => {
            let said = read(text);
            assert(rule::says(read, text@, said));
            Ok(open(said, cap))
        },
        None => Err(Status::Malformed),
    }
}

/// Who published, where, and the single values. No handle, no answer.
pub fn xmip_publication_head_v1<M>(held: Option<&Publication<M>>) -> (r: Result<
    PublicationHead<'_>,
    Status,
>)
    ensures
        (r is Ok) == (held is Some),
        r matches Err(status) ==> status == Status::Invalid,
        r matches Ok(head) ==> headed(*held->0, head),
{
    match held {
        Some(publication) => Ok(publication.head()),
        None => Err(Status::Invalid),
    }
}

/// What is answered of a list behind a handle: as much of it as fits.
pub open spec fn listed<T>(
    items: Option<Seq<T>>,
    cap: usize,
    r: Result<Filled<T>, Status>,
) -> bool {
    match items {
        Some(items) => r is Ok && boundary::fills(r->Ok_0, items, cap),
        None => r is Err && r->Err_0 == Status::Invalid,
    }
}

/// The records, in the order they were read in.
pub fn xmip_publication_records_v1<'a, M>(held: Option<&Read<'a, M>>, cap: usize) -> (r: Result<
    Filled<HealthEntry<'a>>,
    Status,
>)
    ensures
        listed(
            match held {
                Some(read) => Some(read.records@),
                None => None,
            },
            cap,
            r,
        ),
{
    match held {
        Some(read) => Ok(fill_copied(read.records.as_slice(), cap)),
        None => Err(Status::Invalid),
    }
}

/// The counts, each at its scope.
pub fn xmip_publication_counts_v1<'a, M>(held: Option<&Read<'a, M>>, cap: usize) -> (r: Result<
    Filled<Measurement<'a>>,
    Status,
>)
    ensures
        listed(
            match held {
                Some(read) => Some(read.counts@),
                None => None,
            },
            cap,
            r,
        ),
{
    match held {
        Some(read) => Ok(fill_copied(read.counts.as_slice(), cap)),
        None => Err(Status::Invalid),
    }
}

/// The topology's nodes; none when it draws none.
pub fn xmip_publication_nodes_v1<'a, M: Copy>(
    held: Option<&Read<'a, M>>,
    cap: usize,
) -> (r: Result<Filled<NodeEntry<'a, M>>, Status>)
    ensures
        listed(
            match held {
                Some(read) => Some(read.nodes@),
                None => None,
            },
            cap,
            r,
        ),
{
    match held {
        Some(read) => Ok(fill_copied(read.nodes.as_slice(), cap)),
        None => Err(Status::Invalid),
    }
}

/// The topology's links; none when it draws none.
pub fn xmip_publication_links_v1<'a, M: Copy>(
    held: Option<&Read<'a, M>>,
    cap: usize,
) -> (r: Result<Filled<LinkEntry<'a, M>>, Status>)
    ensures
        listed(
            match held {
                Some(read) => Some(read.links@),
                None => None,
            },
            cap,
            r,
        ),
{
    match held {
        Some(read) => Ok(fill_copied(read.links.as_slice(), cap)),
        None => Err(Status::Invalid),
    }
}

/// One of a run's lists.
#[derive(Clone, Copy, Debug, PartialEq, Eq, Structural)]
pub enum RunList {
    Tests,
    Nodes,
    Capabilities,
    Online,
}

/// The header's integer for each of a run's lists.
#[derive(Clone, Copy, Debug, PartialEq, Eq, Structural)]
pub struct RunListCodes {
    pub tests: u32,
    pub nodes: u32,
    pub capabilities: u32,
    pub online: u32,
}

impl RunListCodes {
    /// The list an integer stands for.
    pub open spec fn list(self, value: u32) -> Option<RunList> {
        if value == self.tests {
            Some(RunList::Tests)
        } else if value == self.nodes {
            Some(RunList::Nodes)
        } else if value == self.capabilities {
            Some(RunList::Capabilities)
        } else if value == self.online {
            Some(RunList::Online)
        } else {
            None
        }
    }

    fn read(&self, value: u32) -> (r: Option<RunList>)
        ensures
            r == self.list(value),
    {
        if value == self.tests {
            Some(RunList::Tests)
        } else if value == self.nodes {
            Some(RunList::Nodes)
        } else if value == self.capabilities {
            Some(RunList::Capabilities)
        } else if value == self.online {
            Some(RunList::Online)
        } else {
            None
        }
    }
}

impl Run {
    pub open spec fn listing(self, which: RunList) -> Seq<String> {
        match which {
            RunList::Tests => self.tests@,
            RunList::Nodes => self.nodes@,
            RunList::Capabilities => self.capabilities@,
            RunList::Online => self.online@,
        }
    }

    pub fn list(&self, which: RunList) -> (r: &Vec<String>)
        ensures
            r@ == self.listing(which),
    {
        match which {
            RunList::Tests => &self.tests,
            RunList::Nodes => &self.nodes,
            RunList::Capabilities => &self.capabilities,
            RunList::Online => &self.online,
        }
    }
}

/// What reading one of a run's lists came to.
#[derive(Debug)]
pub enum RunReply<'a> {
    /// No handle, or a list the header does not name. Nothing is written.
    Invalid,
    /// The publication says nothing of its run: a count of none is written.
    NotFound,
    Okay(Filled<&'a String>),
}

/// One of the run's lists.
pub fn xmip_publication_run_v1<'a, M>(
    held: Option<&'a Publication<M>>,
    codes: &RunListCodes,
    list: u32,
    cap: usize,
) -> (r: RunReply<'a>)
    ensures
        held is None || codes.list(list) is None ==> r == RunReply::<'a>::Invalid,
        held is Some && codes.list(list) is Some && held->0.run is None ==> r
            == RunReply::<'a>::NotFound,
        held is Some && codes.list(list) is Some && held->0.run is Some ==> {
            &&& r matches RunReply::Okay(filled)
            &&& boundary::fills(
                filled,
                held->0.run->0.listing(codes.list(list)->0).map_values(|word: String| &word),
                cap,
            )
        },
{
    let publication = match held {
        Some(publication) => publication,
        None => return RunReply::Invalid,
    };
    let which = match codes.read(list) {
        Some(which) => which,
        None => return RunReply::Invalid,
    };
    match &publication.run {
        Some(run) => {
            let words = run.list(which);
            let mut borrowed: Vec<&'a String> = Vec::new();
            let mut at: usize = 0;
            while at < words.len()
                invariant
                    at <= words@.len(),
                    borrowed@ == words@.map_values(|word: String| &word).take(at as int),
                decreases words@.len() - at,
            {
                borrowed.push(&words[at]);
                at += 1;
                assert(borrowed@ =~= words@.map_values(|word: String| &word).take(at as int));
            }
            assert(borrowed@ =~= words@.map_values(|word: String| &word));
            RunReply::Okay(fill_copied(borrowed.as_slice(), cap))
        },
        None => RunReply::NotFound,
    }
}

/// `filled` is `words` from the beginning, as many as there is room for, with
/// their true count.
pub open spec fn told(filled: Filled<&String>, words: Seq<String>, cap: usize) -> bool {
    &&& filled.count == words.len()
    &&& filled.entries@.len() <= cap
    &&& filled.entries@.len() <= words.len()
    &&& filled.entries@.len() == cap || filled.entries@.len() == words.len()
    &&& forall|i: int|
        0 <= i < filled.entries@.len() ==> *(#[trigger] filled.entries@[i]) == words[i]
}

/// Asked for the header's integer of one of a run's lists, the call answers that
/// list of the run: the tests' integer the run's tests, the nodes' its nodes,
/// the capabilities' its capabilities, and the online integer who is online. Any
/// other integer is invalid; and where there is no run, none of the lists is
/// found.
pub proof fn law_each_list_of_a_run_is_answered_by_its_own_integer<'a, M>(
    publication: &'a Publication<M>,
    codes: RunListCodes,
    list: u32,
    cap: usize,
    reply: RunReply<'a>,
)
    requires
        call_ensures(
            xmip_publication_run_v1::<M>,
            (Some(publication), &codes, list, cap),
            reply,
        ),
        codes.tests != codes.nodes,
        codes.tests != codes.capabilities,
        codes.tests != codes.online,
        codes.nodes != codes.capabilities,
        codes.nodes != codes.online,
        codes.capabilities != codes.online,
    ensures
        publication.run matches Some(run) ==> {
            &&& list == codes.tests ==> reply is Okay && told(reply->Okay_0, run.tests@, cap)
            &&& list == codes.nodes ==> reply is Okay && told(reply->Okay_0, run.nodes@, cap)
            &&& list == codes.capabilities ==> reply is Okay && told(
                reply->Okay_0,
                run.capabilities@,
                cap,
            )
            &&& list == codes.online ==> reply is Okay && told(reply->Okay_0, run.online@, cap)
        },
        reply is Invalid <==> list != codes.tests && list != codes.nodes && list
            != codes.capabilities && list != codes.online,
        reply is NotFound <==> publication.run is None && (list == codes.tests || list
            == codes.nodes || list == codes.capabilities || list == codes.online),
{
    if let Some(run) = publication.run {
        if reply is Okay {
            let words = run.listing(codes.list(list)->0);
            assert(words.map_values(|word: String| &word).len() == words.len());
        }
    }
}

/// A list of a run by its name is that field of the run.
pub proof fn law_a_run_lists_its_own_fields(run: Run, which: RunList, words: &Vec<String>)
    requires
        call_ensures(Run::list, (&run, which), words),
    ensures
        which == RunList::Tests ==> words@ == run.tests@,
        which == RunList::Nodes ==> words@ == run.nodes@,
        which == RunList::Capabilities ==> words@ == run.capabilities@,
        which == RunList::Online ==> words@ == run.online@,
{
}

/// Every record and every count crosses in its own place with everything it
/// says: its scope, its mood or kind as the header's integer, its value, its
/// evidence and its moments.
pub proof fn law_records_and_counts_cross_whole<'a, M: Copy>(
    publication: &'a Publication<M>,
    moods: HealthCodes,
    kinds: CountedCodes,
    read: Read<'a, M>,
    at: int,
)
    requires
        call_ensures(Read::<'a, M>::of, (publication, &moods, &kinds), read),
    ensures
        read.records@.len() == publication.records@.len(),
        read.counts@.len() == publication.counts@.len(),
        0 <= at < publication.records@.len() ==> {
            let record = publication.records@[at];
            let entry = read.records@[at];
            &&& entry.scope@ == record.scope@
            &&& entry.health == moods.code(record.health)
            &&& entry.severity == record.severity
            &&& entry.evidence@ == record.evidence@
            &&& entry.observed_unix_nanos == record.observed_unix_nanos
        },
        0 <= at < publication.counts@.len() ==> {
            let count = publication.counts@[at];
            let entry = read.counts@[at];
            &&& entry.scope@ == count.scope@
            &&& entry.counted == kinds.code(count.counted)
            &&& entry.value == count.value
            &&& entry.window_start_unix_nanos == count.window_start_unix_nanos
            &&& entry.window_end_unix_nanos == count.window_end_unix_nanos
            &&& entry.observed_unix_nanos == count.observed_unix_nanos
        },
{
    if 0 <= at < publication.records@.len() {
        assert(read.records@[at] == laid_record(&publication.records@[at], moods));
    }
    if 0 <= at < publication.counts@.len() {
        assert(read.counts@[at] == laid_count(&publication.counts@[at], kinds));
    }
}

/// Every place and every link of a topology crosses in its own place with
/// everything it says; where no topology is drawn, none crosses. What it crosses
/// as reads back as what was drawn.
pub proof fn law_a_topology_crosses_whole<'a, M: Copy>(
    publication: &'a Publication<M>,
    moods: HealthCodes,
    kinds: CountedCodes,
    read: Read<'a, M>,
    at: int,
    kind: Option<NodeKind>,
    origin: Option<Origin>,
    pattern: Option<Pattern>,
    link_origin: Option<Origin>,
)
    requires
        call_ensures(Read::<'a, M>::of, (publication, &moods, &kinds), read),
        0 <= at < read.nodes@.len() ==> call_ensures(
            wire::from_wire_kind,
            (read.nodes@[at].kind,),
            kind,
        ) && call_ensures(wire::from_wire_origin, (read.nodes@[at].origin,), origin),
        0 <= at < read.links@.len() ==> call_ensures(
            wire::from_wire_pattern,
            (read.links@[at].pattern,),
            pattern,
        ) && call_ensures(wire::from_wire_origin, (read.links@[at].origin,), link_origin),
    ensures
        publication.topology is None ==> read.nodes@.len() == 0 && read.links@.len() == 0,
        publication.topology matches Some(topology) ==> {
            &&& read.nodes@.len() == topology.nodes@.len()
            &&& read.links@.len() == topology.links@.len()
            &&& 0 <= at < topology.nodes@.len() ==> {
                let node = topology.nodes@[at];
                let entry = read.nodes@[at];
                &&& entry.id@ == node.id@
                &&& entry.parent@ == node.parent@
                &&& entry.label@ == node.label@
                &&& kind == Some(node.kind)
                &&& entry.scope@ == node.scope@
                &&& entry.health == moods.code(node.state)
                &&& origin == Some(node.origin)
                &&& entry.load == node.load
                &&& entry.activity == node.activity
                &&& entry.evidence@ == node.evidence@
            }
            &&& 0 <= at < topology.links@.len() ==> {
                let link = topology.links@[at];
                let entry = read.links@[at];
                &&& entry.id@ == link.id@
                &&& entry.from@ == link.from@
                &&& entry.to@ == link.to@
                &&& pattern == Some(link.pattern)
                &&& link_origin == Some(link.origin)
                &&& entry.protocol@ == link.protocol@
                &&& entry.health == moods.code(link.state)
                &&& entry.volume == link.volume
                &&& entry.rate == link.rate
                &&& entry.latency_ms == link.latency_ms
                &&& entry.progress == link.progress
                &&& entry.attempts == link.attempts
                &&& entry.evidence@ == link.evidence@
            }
        },
{
    if let Some(topology) = publication.topology {
        if 0 <= at < topology.nodes@.len() {
            assert(laid_node(topology.nodes@[at], moods, read.nodes@[at]));
        }
        if 0 <= at < topology.links@.len() {
            assert(laid_link(topology.links@[at], moods, read.links@[at]));
        }
    }
}

/// A head says who published and where, and of the run and the topology whether
/// there is one and what it is called; of one that is not there, nothing.
pub proof fn law_a_head_says_who_published<'a, M>(
    publication: &'a Publication<M>,
    head: PublicationHead<'a>,
)
    requires
        call_ensures(Publication::<M>::head, (publication,), head),
    ensures
        head.source@ == publication.source@,
        head.node@ == publication.node@,
        publication.run matches Some(run) ==> head.has_run == 1 && head.cluster@ == run.cluster@
            && head.stress@ == run.stress@,
        publication.run is None ==> head.has_run == 0 && head.cluster@.len() == 0
            && head.stress@.len() == 0,
        publication.topology matches Some(drawn) ==> head.has_topology == 1
            && head.topology_source@ == drawn.source@ && head.topology_observed_unix_nanos
            == drawn.observed_unix_nanos,
        publication.topology is None ==> head.has_topology == 0 && head.topology_source@.len() == 0
            && head.topology_observed_unix_nanos == 0,
{
    reveal_strlit("");
}

/// Behind a handle each call lists its own list, from the beginning, as far as
/// there is room, and the true count; without a handle each is invalid.
pub proof fn law_each_call_lists_its_own_list<'a, M: Copy>(
    read: &Read<'a, M>,
    cap: usize,
    records: Result<Filled<HealthEntry<'a>>, Status>,
    counts: Result<Filled<Measurement<'a>>, Status>,
    nodes: Result<Filled<NodeEntry<'a, M>>, Status>,
    links: Result<Filled<LinkEntry<'a, M>>, Status>,
    at: int,
)
    requires
        call_ensures(xmip_publication_records_v1::<M>, (Some(read), cap), records),
        call_ensures(xmip_publication_counts_v1::<M>, (Some(read), cap), counts),
        call_ensures(xmip_publication_nodes_v1::<M>, (Some(read), cap), nodes),
        call_ensures(xmip_publication_links_v1::<M>, (Some(read), cap), links),
    ensures
        records matches Ok(filled) && filled.count == read.records@.len() && (0 <= at < cap && at
            < read.records@.len() ==> at < filled.entries@.len() && filled.entries@[at]
            == read.records@[at]) && filled.entries@.len() <= cap,
        counts matches Ok(filled) && filled.count == read.counts@.len() && (0 <= at < cap && at
            < read.counts@.len() ==> at < filled.entries@.len() && filled.entries@[at]
            == read.counts@[at]) && filled.entries@.len() <= cap,
        nodes matches Ok(filled) && filled.count == read.nodes@.len() && (0 <= at < cap && at
            < read.nodes@.len() ==> at < filled.entries@.len() && filled.entries@[at]
            == read.nodes@[at]) && filled.entries@.len() <= cap,
        links matches Ok(filled) && filled.count == read.links@.len() && (0 <= at < cap && at
            < read.links@.len() ==> at < filled.entries@.len() && filled.entries@[at]
            == read.links@[at]) && filled.entries@.len() <= cap,
{
}

/// Without a handle there is no answer but that it is invalid.
pub proof fn law_without_a_handle_everything_is_invalid<'a, M: Copy>(
    codes: RunListCodes,
    list: u32,
    cap: usize,
    head: Result<PublicationHead<'a>, Status>,
    records: Result<Filled<HealthEntry<'a>>, Status>,
    counts: Result<Filled<Measurement<'a>>, Status>,
    nodes: Result<Filled<NodeEntry<'a, M>>, Status>,
    links: Result<Filled<LinkEntry<'a, M>>, Status>,
    reply: RunReply<'a>,
)
    requires
        call_ensures(xmip_publication_head_v1::<M>, (None::<&'a Publication<M>>,), head),
        call_ensures(xmip_publication_records_v1::<M>, (None::<&Read<'a, M>>, cap), records),
        call_ensures(xmip_publication_counts_v1::<M>, (None::<&Read<'a, M>>, cap), counts),
        call_ensures(xmip_publication_nodes_v1::<M>, (None::<&Read<'a, M>>, cap), nodes),
        call_ensures(xmip_publication_links_v1::<M>, (None::<&Read<'a, M>>, cap), links),
        call_ensures(
            xmip_publication_run_v1::<M>,
            (None::<&'a Publication<M>>, &codes, list, cap),
            reply,
        ),
    ensures
        head matches Err(status) && status == Status::Invalid,
        records matches Err(status) && status == Status::Invalid,
        counts matches Err(status) && status == Status::Invalid,
        nodes matches Err(status) && status == Status::Invalid,
        links matches Err(status) && status == Status::Invalid,
        reply is Invalid,
{
}

/// A text that was read is held and nothing is said of it; of one that was not,
/// nothing is held and the reader's own sentence is said, from its beginning.
pub proof fn law_what_a_reader_says_crosses<T>(
    opened: Opened<T>,
    said: Result<T, String>,
    cap: usize,
)
    requires
        opens(opened, said, cap),
    ensures
        said matches Ok(read) ==> opened.status == Status::Okay && opened.held == Some(read)
            && opened.report.length == 0 && opened.report.bytes@.len() == 0,
        said matches Err(sentence) ==> {
            &&& opened.status == Status::Invalid
            &&& opened.held is None
            &&& opened.report.length == vstd::utf8::encode_utf8(sentence@).len()
            &&& opened.report.bytes@.len() <= cap
            &&& opened.report.length <= cap ==> opened.report.bytes@ == vstd::utf8::encode_utf8(
                sentence@,
            )
        },
{
}

/// A text that is handed over is read by its owner: what the owner read is held,
/// and where the owner refuses it, nothing is, and the owner's sentence goes back
/// with its true length. What is no text never gets there.
pub proof fn law_a_publication_is_read_by_its_owner<
    'a,
    M,
    F: Fn(&'a str) -> Result<Publication<M>, String>,
>(
    text: Option<&'a [u8]>,
    cap: usize,
    read: F,
    owner: spec_fn(Seq<char>) -> Result<Publication<M>, Seq<char>>,
    r: Result<Opened<Publication<M>>, Status>,
)
    requires
        forall|asked: &'a str, said: Result<Publication<M>, String>| #[trigger]
            read.ensures((asked,), said) ==> match said {
                Ok(publication) => owner(asked@) == Ok::<Publication<M>, Seq<char>>(publication),
                Err(sentence) => owner(asked@) == Err::<Publication<M>, Seq<char>>(sentence@),
            },
        call_ensures(xmip_publication_read_v1::<M, F>, (text, cap, read), r),
    ensures
        match boundary::reading(text) {
            Some(asked) => match owner(asked) {
                Ok(publication) => r is Ok && r->Ok_0.status == Status::Okay && r->Ok_0.held
                    == Some(publication) && r->Ok_0.report.length == 0,
                Err(sentence) => r is Ok && r->Ok_0.status == Status::Invalid && r->Ok_0.held
                    is None && r->Ok_0.report.length == vstd::utf8::encode_utf8(sentence).len(),
            },
            None => r is Err && r->Err_0 == Status::Malformed,
        },
{
}

} // verus!
