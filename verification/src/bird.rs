//! The policy synthesizer: from nodes and authorization records to the text
//! of one filter function, `enforce_user_policy`, with a clause for every
//! authorized node and a closing reject for everyone else.

use vstd::prelude::*;
use vstd::string::*;
use crate::clock::{is_utc_stamp, utc_timestamp};
use crate::headscale::{is_first_tailnet_v4, is_tailnet_v4, lemma_first_tailnet_v4, Node, NodeView};
use crate::peerlab::{mapping_lookup, MappingLookup, MappingView, UserMapping};
use crate::text::{append_decimal, append_joined, decimal, joined};

verus! {

pub const HEADER_MARKER: &'static str = "# Auto-generated user policy for PeerLab\n";

pub const HEADER_STAMP_OPEN: &'static str = "# Generated at: ";

pub const LINE_END: &'static str = "\n";

pub const FUNCTION_OPEN: &'static str = "function enforce_user_policy(ip remote_ip) {\n";

pub const USER_COMMENT_OPEN: &'static str = "    # User: ";

pub const ADDRESS_MATCH_OPEN: &'static str = "    if (remote_ip = ";

pub const ADDRESS_MATCH_CLOSE: &'static str = ") then {\n";

pub const ASN_CHECK_OPEN: &'static str = "        if (bgp_path.last != ";

pub const ASN_CHECK_CLOSE: &'static str = ") then reject;\n";

pub const PREFIX_CHECK_OPEN: &'static str = "        if !(net ~ [ ";

pub const PREFIX_SEPARATOR: &'static str = ", ";

pub const PREFIX_CHECK_CLOSE: &'static str = " ]) then reject;\n";

pub const DENY_ALL: &'static str = "        reject;  # No authorized prefixes\n";

pub const ACCEPT: &'static str = "        accept;\n";

pub const CLAUSE_CLOSE: &'static str = "    }\n\n";

pub const DEFAULT_REJECT: &'static str = "    # Unknown user\n    reject;\n";

pub const FUNCTION_CLOSE: &'static str = "}\n";

/// One authorization clause as plain values.
pub struct ClauseView {
    pub email: Seq<char>,
    pub address: Seq<char>,
    pub asn: nat,
    pub prefixes: Seq<Seq<char>>,
}

/// The clause a node is owed: it needs a user with a non-empty email, an
/// address of the tailnet's IPv4 range, and a record for the email in the
/// lookup. The clause takes the first such address, and the ASN and the
/// prefixes of the record.
pub open spec fn clause_for(node: NodeView, lookup: Map<Seq<char>, MappingView>) -> Option<
    ClauseView,
> {
    if node.is_candidate() && node.ipv4() is Some && lookup.contains_key(node.user.email->0) {
        let record = lookup[node.user.email->0];
        Some(
            ClauseView {
                email: node.user.email->0,
                address: node.ipv4()->0,
                asn: record.asn,
                prefixes: record.prefixes,
            },
        )
    } else {
        None
    }
}

/// The statement that holds announcements to the authorized prefixes: with
/// prefixes, a reject unless the network is in their set, written in the
/// order given; with none, an unconditional reject.
pub open spec fn prefix_check_text(prefixes: Seq<Seq<char>>) -> Seq<char> {
    if prefixes.len() == 0 {
        DENY_ALL@
    } else {
        PREFIX_CHECK_OPEN@ + joined(prefixes, PREFIX_SEPARATOR@) + PREFIX_CHECK_CLOSE@
    }
}

/// The opening of a clause: the comment naming the user, the match on the
/// node's address, and the reject of paths that do not end in the ASN.
pub open spec fn clause_intro(clause: ClauseView) -> Seq<char> {
    USER_COMMENT_OPEN@ + clause.email + LINE_END@ + ADDRESS_MATCH_OPEN@ + clause.address
        + ADDRESS_MATCH_CLOSE@ + ASN_CHECK_OPEN@ + decimal(clause.asn) + ASN_CHECK_CLOSE@
}

/// The text of one clause: the opening, the prefix statement, the accept,
/// and the closing brace.
pub open spec fn clause_text(clause: ClauseView) -> Seq<char> {
    clause_intro(clause) + prefix_check_text(clause.prefixes) + ACCEPT@ + CLAUSE_CLOSE@
}

/// What one node adds to the function body: its clause, or nothing.
pub open spec fn node_text(node: NodeView, lookup: Map<Seq<char>, MappingView>) -> Seq<char> {
    match clause_for(node, lookup) {
        Some(clause) => clause_text(clause),
        None => Seq::empty(),
    }
}

/// The clauses of all nodes, in the order of the nodes.
pub open spec fn clauses_text(nodes: Seq<NodeView>, lookup: Map<Seq<char>, MappingView>) -> Seq<
    char,
>
    decreases nodes.len(),
{
    if nodes.len() == 0 {
        Seq::empty()
    } else {
        clauses_text(nodes.drop_last(), lookup) + node_text(nodes.last(), lookup)
    }
}

/// The header: the marker line, the line with the time of generation, and
/// an empty line.
pub open spec fn header_text(timestamp: Seq<char>) -> Seq<char> {
    HEADER_MARKER@ + HEADER_STAMP_OPEN@ + timestamp + LINE_END@ + LINE_END@
}

/// The filter function: the clauses, then the reject for unknown users.
pub open spec fn policy_text(nodes: Seq<NodeView>, mappings: Seq<MappingView>) -> Seq<char> {
    FUNCTION_OPEN@ + clauses_text(nodes, mapping_lookup(mappings)) + DEFAULT_REJECT@
        + FUNCTION_CLOSE@
}

/// The whole generated text.
pub open spec fn config_text(
    nodes: Seq<NodeView>,
    mappings: Seq<MappingView>,
    timestamp: Seq<char>,
) -> Seq<char> {
    header_text(timestamp) + policy_text(nodes, mappings)
}

/// The clauses of a list of nodes are those of its first part followed by
/// those of the rest: clauses come in the order of the nodes.
pub proof fn lemma_clauses_text_split(
    front: Seq<NodeView>,
    back: Seq<NodeView>,
    lookup: Map<Seq<char>, MappingView>,
)
    ensures
        clauses_text(front + back, lookup) == clauses_text(front, lookup) + clauses_text(
            back,
            lookup,
        ),
    decreases back.len(),
{
    if back.len() == 0 {
        assert(front + back =~= front);
    } else {
        assert((front + back).drop_last() =~= front + back.drop_last());
        lemma_clauses_text_split(front, back.drop_last(), lookup);
    }
}

/// The clauses of a list of nodes, split around the node at position `i`.
pub proof fn lemma_clauses_text_around(
    nodes: Seq<NodeView>,
    lookup: Map<Seq<char>, MappingView>,
    i: int,
)
    requires
        0 <= i < nodes.len(),
    ensures
        clauses_text(nodes, lookup) == clauses_text(nodes.take(i), lookup) + node_text(
            nodes[i],
            lookup,
        ) + clauses_text(nodes.skip(i + 1), lookup),
{
    let upto = nodes.take(i + 1);
    assert(nodes =~= upto + nodes.skip(i + 1));
    lemma_clauses_text_split(upto, nodes.skip(i + 1), lookup);
    assert(upto.drop_last() =~= nodes.take(i));
}

/// Two texts generated from the same nodes and records differ in nothing
/// but the time written in the header: each is its header followed by the
/// same filter function.
pub proof fn lemma_output_fixed_apart_from_timestamp(
    nodes: Seq<NodeView>,
    mappings: Seq<MappingView>,
    first: Seq<char>,
    second: Seq<char>,
)
    ensures
        config_text(nodes, mappings, first).take(header_text(first).len() as int) == header_text(
            first,
        ),
        config_text(nodes, mappings, second).take(header_text(second).len() as int)
            == header_text(second),
        config_text(nodes, mappings, first).skip(header_text(first).len() as int) == policy_text(
            nodes,
            mappings,
        ),
        config_text(nodes, mappings, second).skip(header_text(second).len() as int)
            == policy_text(nodes, mappings),
        first == second ==> config_text(nodes, mappings, first) == config_text(
            nodes,
            mappings,
            second,
        ),
{
    let body = policy_text(nodes, mappings);
    assert((header_text(first) + body).take(header_text(first).len() as int) =~= header_text(
        first,
    ));
    assert((header_text(second) + body).take(header_text(second).len() as int) =~= header_text(
        second,
    ));
    assert((header_text(first) + body).skip(header_text(first).len() as int) =~= body);
    assert((header_text(second) + body).skip(header_text(second).len() as int) =~= body);
}

/// A node whose user has a non-empty email with a record in the lookup, and
/// which has an address of the tailnet's IPv4 range, adds exactly one clause
/// to the text, at the node's place among the others. The clause is gated on
/// the first such address and carries the ASN of the record and its prefixes
/// in the order the record gives them.
pub proof fn lemma_authorized_node_gets_one_clause(
    nodes: Seq<NodeView>,
    mappings: Seq<MappingView>,
    i: int,
)
    requires
        0 <= i < nodes.len(),
        nodes[i].is_candidate(),
        exists|k: int|
            0 <= k < nodes[i].addresses.len() && is_tailnet_v4(#[trigger] nodes[i].addresses[k]),
        mapping_lookup(mappings).contains_key(nodes[i].user.email->0),
    ensures
        ({
            let lookup = mapping_lookup(mappings);
            let record = lookup[nodes[i].user.email->0];
            let clause = ClauseView {
                email: nodes[i].user.email->0,
                address: nodes[i].ipv4()->0,
                asn: record.asn,
                prefixes: record.prefixes,
            };
            &&& nodes[i].ipv4() is Some
            &&& exists|k: int|
                is_first_tailnet_v4(nodes[i].addresses, k) && nodes[i].addresses[k]
                    == clause.address
            &&& clause_for(nodes[i], lookup) == Some(clause)
            &&& clause_text(clause) == clause_intro(clause) + prefix_check_text(record.prefixes)
                + ACCEPT@ + CLAUSE_CLOSE@
            &&& clauses_text(nodes, lookup) == clauses_text(nodes.take(i), lookup) + clause_text(
                clause,
            ) + clauses_text(nodes.skip(i + 1), lookup)
        }),
{
    let lookup = mapping_lookup(mappings);
    lemma_first_tailnet_v4(nodes[i].addresses);
    lemma_clauses_text_around(nodes, lookup, i);
}

/// A clause for a record without prefixes rejects unconditionally once the
/// path has been checked: its prefix statement is the unconditional reject
/// and stands before the accept. The clause is never left without a prefix
/// statement, which would let every announcement from the ASN through.
pub proof fn lemma_empty_prefixes_deny_all(clause: ClauseView)
    requires
        clause.prefixes.len() == 0,
    ensures
        prefix_check_text(clause.prefixes) == DENY_ALL@,
        clause_text(clause) == clause_intro(clause) + DENY_ALL@ + ACCEPT@ + CLAUSE_CLOSE@,
        "        reject;"@.is_prefix_of(DENY_ALL@),
        clause_text(clause) != clause_intro(clause) + ACCEPT@ + CLAUSE_CLOSE@,
{
    reveal_strlit("        reject;  # No authorized prefixes\n");
    reveal_strlit("        reject;");
    assert("        reject;"@ =~= DENY_ALL@.subrange(0, 15));
    let with_statement = clause_intro(clause) + DENY_ALL@ + ACCEPT@ + CLAUSE_CLOSE@;
    let without = clause_intro(clause) + ACCEPT@ + CLAUSE_CLOSE@;
    assert(with_statement.len() == without.len() + 42);
}

/// A node whose record has no prefixes still gets its clause, and that
/// clause denies all.
pub proof fn lemma_record_without_prefixes_denies_all(
    node: NodeView,
    lookup: Map<Seq<char>, MappingView>,
)
    requires
        node.is_candidate(),
        node.ipv4() is Some,
        lookup.contains_key(node.user.email->0),
        lookup[node.user.email->0].prefixes.len() == 0,
    ensures
        clause_for(node, lookup) is Some,
        node_text(node, lookup) == clause_intro(clause_for(node, lookup)->0) + DENY_ALL@
            + ACCEPT@ + CLAUSE_CLOSE@,
{
    lemma_empty_prefixes_deny_all(clause_for(node, lookup)->0);
}

/// A node whose email has no record in the lookup adds no clause: the text
/// is the one generated without the node.
pub proof fn lemma_unmapped_node_adds_nothing(
    nodes: Seq<NodeView>,
    mappings: Seq<MappingView>,
    timestamp: Seq<char>,
    i: int,
)
    requires
        0 <= i < nodes.len(),
        nodes[i].is_candidate(),
        !mapping_lookup(mappings).contains_key(nodes[i].user.email->0),
    ensures
        clause_for(nodes[i], mapping_lookup(mappings)) is None,
        node_text(nodes[i], mapping_lookup(mappings)) == Seq::<char>::empty(),
        config_text(nodes, mappings, timestamp) == config_text(
            nodes.remove(i),
            mappings,
            timestamp,
        ),
{
    let lookup = mapping_lookup(mappings);
    lemma_clauses_text_around(nodes, lookup, i);
    assert(nodes.remove(i) =~= nodes.take(i) + nodes.skip(i + 1));
    lemma_clauses_text_split(nodes.take(i), nodes.skip(i + 1), lookup);
    assert(clauses_text(nodes, lookup) =~= clauses_text(nodes.remove(i), lookup));
}

/// One authorization clause, borrowed from the node and the record it joins.
#[derive(Debug)]
pub struct Clause<'a> {
    pub email: &'a str,
    pub address: String,
    pub asn: u32,
    pub prefixes: &'a [String],
}

impl<'a> View for Clause<'a> {
    type V = ClauseView;

    open spec fn view(&self) -> ClauseView {
        ClauseView {
            email: self.email@,
            address: self.address@,
            asn: self.asn as nat,
            prefixes: self.prefixes.deep_view(),
        }
    }
}

impl<'a> DeepView for Clause<'a> {
    type V = ClauseView;

    open spec fn deep_view(&self) -> ClauseView {
        self@
    }
}

/// Decides the clause of one node.
pub fn authorize<'a>(node: &'a Node, lookup: &MappingLookup<'a>) -> (clause: Option<Clause<'a>>)
    ensures
        clause.deep_view() == clause_for(node@, lookup@),
{
    if !node.has_user_email() {
        return None;
    }
    let email: &'a str = match &node.user.email {
        Some(email) => email.as_str(),
        None => {
            return None;
        },
    };
    let address: String = match node.get_ipv4() {
        Some(address) => address,
        None => {
            return None;
        },
    };
    match lookup.get(email) {
        Some(record) => Some(
            Clause { email, address, asn: record.asn, prefixes: record.prefixes.as_slice() },
        ),
        None => None,
    }
}

/// Appends the text of one clause.
pub fn append_clause(out: &mut String, clause: &Clause)
    ensures
        final(out)@ == old(out)@ + clause_text(clause@),
{
    out.append(USER_COMMENT_OPEN);
    out.append(clause.email);
    out.append(LINE_END);
    out.append(ADDRESS_MATCH_OPEN);
    out.append(clause.address.as_str());
    out.append(ADDRESS_MATCH_CLOSE);
    out.append(ASN_CHECK_OPEN);
    append_decimal(out, clause.asn);
    out.append(ASN_CHECK_CLOSE);
    if clause.prefixes.len() == 0 {
        out.append(DENY_ALL);
    } else {
        out.append(PREFIX_CHECK_OPEN);
        append_joined(out, clause.prefixes, PREFIX_SEPARATOR);
        out.append(PREFIX_CHECK_CLOSE);
    }
    out.append(ACCEPT);
    out.append(CLAUSE_CLOSE);
    assert(out@ =~= old(out)@ + clause_text(clause@));
}

/// Why a candidate node is passed over, or gets a clause that denies all.
/// None of these stops the generation.
#[derive(Debug, Clone, Copy, PartialEq, Eq, Structural)]
pub enum DataGap {
    /// The node has no address of the tailnet's IPv4 range: no clause.
    MissingAddress,
    /// The lookup has no record for the email of the node's user: no clause.
    MissingMapping,
    /// The record lists no prefixes: the clause denies all.
    EmptyPrefixes,
}

/// The gap in the data of one node. A node that is no candidate has none;
/// of a candidate the address is looked at first, then the record, then the
/// record's prefixes.
pub open spec fn data_gap(node: NodeView, lookup: Map<Seq<char>, MappingView>) -> Option<DataGap> {
    if !node.is_candidate() {
        None
    } else if node.ipv4() is None {
        Some(DataGap::MissingAddress)
    } else if !lookup.contains_key(node.user.email->0) {
        Some(DataGap::MissingMapping)
    } else if lookup[node.user.email->0].prefixes.len() == 0 {
        Some(DataGap::EmptyPrefixes)
    } else {
        None
    }
}

/// How a gap is handled: a candidate node without an address or without a
/// record adds nothing to the text, one whose record lacks prefixes gets a
/// clause that denies all, and one without a gap gets a clause that holds
/// announcements to the record's prefixes.
pub proof fn lemma_gap_handling(node: NodeView, lookup: Map<Seq<char>, MappingView>)
    requires
        node.is_candidate(),
    ensures
        match data_gap(node, lookup) {
            Some(DataGap::MissingAddress) | Some(DataGap::MissingMapping) => node_text(
                node,
                lookup,
            ) == Seq::<char>::empty(),
            Some(DataGap::EmptyPrefixes) => {
                &&& clause_for(node, lookup) is Some
                &&& node_text(node, lookup) == clause_intro(clause_for(node, lookup)->0)
                    + DENY_ALL@ + ACCEPT@ + CLAUSE_CLOSE@
            },
            None => {
                &&& clause_for(node, lookup) is Some
                &&& node_text(node, lookup) == clause_intro(clause_for(node, lookup)->0)
                    + PREFIX_CHECK_OPEN@ + joined(
                    clause_for(node, lookup)->0.prefixes,
                    PREFIX_SEPARATOR@,
                ) + PREFIX_CHECK_CLOSE@ + ACCEPT@ + CLAUSE_CLOSE@
            },
        },
{
    match data_gap(node, lookup) {
        Some(DataGap::EmptyPrefixes) => {
            lemma_record_without_prefixes_denies_all(node, lookup);
        },
        None => {
            let clause = clause_for(node, lookup)->0;
            assert(node_text(node, lookup) =~= clause_intro(clause) + PREFIX_CHECK_OPEN@ + joined(
                clause.prefixes,
                PREFIX_SEPARATOR@,
            ) + PREFIX_CHECK_CLOSE@ + ACCEPT@ + CLAUSE_CLOSE@);
        },
        _ => {},
    }
}

/// Finds the gap in the data of one node.
pub fn node_gap(node: &Node, lookup: &MappingLookup) -> (gap: Option<DataGap>)
    ensures
        gap == data_gap(node@, lookup@),
{
    if !node.has_user_email() {
        return None;
    }
    if node.get_ipv4().is_none() {
        return Some(DataGap::MissingAddress);
    }
    match &node.user.email {
        Some(email) => match lookup.get(email.as_str()) {
            Some(record) => if record.prefixes.len() == 0 {
                Some(DataGap::EmptyPrefixes)
            } else {
                None
            },
            None => Some(DataGap::MissingMapping),
        },
        None => None,
    }
}

/// Finds the gaps in the data, node by node: the entry at a node's position
/// is the gap of that node.
pub fn find_data_gaps(nodes: &[Node], mappings: &[UserMapping]) -> (gaps: Vec<Option<DataGap>>)
    ensures
        gaps@.len() == nodes@.len(),
        forall|i: int|
            0 <= i < nodes@.len() ==> #[trigger] gaps@[i] == data_gap(
                nodes.deep_view()[i],
                mapping_lookup(mappings.deep_view()),
            ),
{
    let lookup = MappingLookup::build(mappings);
    let mut gaps: Vec<Option<DataGap>> = Vec::new();
    let mut i: usize = 0;
    while i < nodes.len()
        invariant
            i <= nodes.len(),
            gaps@.len() == i,
            lookup@ == mapping_lookup(mappings.deep_view()),
            forall|j: int| 0 <= j < i ==> #[trigger] gaps@[j] == data_gap(nodes@[j]@, lookup@),
        decreases nodes.len() - i,
    {
        gaps.push(node_gap(&nodes[i], &lookup));
        i += 1;
    }
    gaps
}

/// Generates the policy text for the given time of generation.
pub fn render_config(nodes: &[Node], mappings: &[UserMapping], timestamp: &str) -> (config: String)
    ensures
        config@ == config_text(nodes.deep_view(), mappings.deep_view(), timestamp@),
{
    let lookup = MappingLookup::build(mappings);
    let mut config = String::new();
    config.append(HEADER_MARKER);
    config.append(HEADER_STAMP_OPEN);
    config.append(timestamp);
    config.append(LINE_END);
    config.append(LINE_END);
    config.append(FUNCTION_OPEN);
    let ghost views = nodes.deep_view();
    let ghost opening = config@;
    assert(opening =~= header_text(timestamp@) + FUNCTION_OPEN@);
    let mut i: usize = 0;
    while i < nodes.len()
        invariant
            i <= nodes.len(),
            views == nodes.deep_view(),
            lookup@ == mapping_lookup(mappings.deep_view()),
            config@ == opening + clauses_text(views.take(i as int), lookup@),
        decreases nodes.len() - i,
    {
        proof {
            let next = views.take(i + 1);
            assert(next.drop_last() =~= views.take(i as int));
            assert(next.last() == nodes[i as int]@);
        }
        match authorize(&nodes[i], &lookup) {
            Some(clause) => {
                append_clause(&mut config, &clause);
            },
            None => {},
        }
        assert(config@ =~= opening + clauses_text(views.take(i + 1), lookup@));
        i += 1;
    }
    assert(views.take(nodes.len() as int) =~= views);
    config.append(DEFAULT_REJECT);
    config.append(FUNCTION_CLOSE);
    assert(config@ =~= config_text(views, mappings.deep_view(), timestamp@));
    config
}

/// Generates the policy text, stamped with the current time in UTC.
///
/// The text is the one `render_config` gives for the time that the clock
/// returned; the contract says what holds whichever time that was.
pub fn generate_config(nodes: &[Node], mappings: &[UserMapping]) -> (config: String)
    ensures
        exists|timestamp: Seq<char>|
            is_utc_stamp(timestamp) && config@ == #[trigger] config_text(
                nodes.deep_view(),
                mappings.deep_view(),
                timestamp,
            ),
{
    let timestamp = utc_timestamp();
    render_config(nodes, mappings, timestamp.as_str())
}

} // verus!
