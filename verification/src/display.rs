//! What the tool shows for containers and their resource usage.
use vstd::prelude::*;
use vstd::utf8::{decode_utf8, encode_utf8, is_char_boundary};
use crate::docker::{keys_distinct, Container, ContainerStats, NetworkStats, Port};
use crate::text::{
    char_prefix, decimal, first_chars, i128_to_decimal, join, join_with, same_text, signed_decimal,
    trim_leading, trim_start_char, u128_to_decimal, u64_to_decimal,
};

verus! {

/// How many characters of an id are shown.
pub const SHORT_ID_LEN: usize = 12;

/// Commands longer than this many bytes are cut.
pub const COMMAND_MAX_BYTES: usize = 20;

/// Where a command that is too long is cut, in bytes.
pub const COMMAND_CUT_BYTES: usize = 17;

/// Whether chrono can represent the UTC instant `secs` seconds after the Unix
/// epoch: its dates run from January 1 of the year -262143 to December 31 of
/// the year 262142.
pub open spec fn utc_timestamp_representable(secs: i64) -> bool {
    -8334601228800 <= secs <= 8210266876799
}

/// The text that `humansize` writes for `bytes` with its decimal (SI) units.
pub uninterp spec fn decimal_size_text(bytes: u64) -> Seq<char>;

/// Calls `chrono::DateTime::<Utc>::from_timestamp(secs, 0)` and tells whether
/// it gave a date. The contract claims what chrono's source shows: a date
/// comes exactly when the day `secs` falls on lies within chrono's range of
/// dates (`utc_timestamp_representable`).
#[verifier::external_body]
fn timestamp_representable(secs: i64) -> (r: bool)
    ensures
        r == utc_timestamp_representable(secs),
{
    chrono::DateTime::<chrono::Utc>::from_timestamp(secs, 0).is_some()
}

/// Calls `humansize::format_size(bytes, humansize::DECIMAL)`. The contract
/// claims only that the text depends on `bytes` alone; its wording (a number
/// scaled to B, kB, MB, ... with up to two decimals) is left to humansize.
#[verifier::external_body]
fn format_size_decimal(bytes: u64) -> (r: String)
    ensures
        r@ == decimal_size_text(bytes),
{
    humansize::format_size(bytes, humansize::DECIMAL)
}

/// The short form of an id: its first twelve characters.
pub fn short_id(id: &str) -> (r: String)
    ensures
        r@ == first_chars(id@, SHORT_ID_LEN as int),
{
    char_prefix(id, SHORT_ID_LEN)
}

/// The name shown for a container: its first name without the leading `/`s,
/// or nothing when it has none.
pub open spec fn shown_name(names: Option<Seq<Seq<char>>>) -> Seq<char> {
    match names {
        Some(ns) => if ns.len() > 0 {
            trim_leading(ns[0], '/')
        } else {
            Seq::empty()
        },
        None => Seq::empty(),
    }
}

/// The name shown for a container with `names`.
pub fn container_name(names: &Option<Vec<String>>) -> (r: String)
    ensures
        r@ == shown_name(
            match names {
                Some(ns) => Some(ns@.map_values(|n: String| n@)),
                None => None,
            },
        ),
{
    match names {
        Some(ns) => {
            if ns.len() > 0 {
                trim_start_char(ns[0].as_str(), '/')
            } else {
                String::new()
            }
        },
        None => String::new(),
    }
}

/// Whether a command can be shown: it is short enough to show whole, or its
/// seventeenth byte ends a character so that it can be cut there.
pub open spec fn command_cuttable(command: Seq<char>) -> bool {
    encode_utf8(command).len() <= COMMAND_MAX_BYTES || is_char_boundary(
        encode_utf8(command),
        COMMAND_CUT_BYTES as int,
    )
}

/// The command as shown: whole when its UTF-8 form has at most twenty bytes,
/// else its first seventeen bytes and `...`.
pub open spec fn shown_command(command: Seq<char>) -> Seq<char> {
    let bytes = encode_utf8(command);
    if bytes.len() > COMMAND_MAX_BYTES {
        decode_utf8(bytes.subrange(0, COMMAND_CUT_BYTES as int)) + "..."@
    } else {
        command
    }
}

/// Whether a command can be shown (see `command_cuttable`).
pub fn command_fits_or_cuts_cleanly(command: &str) -> (r: bool)
    ensures
        r == command_cuttable(command@),
{
    command.as_bytes().len() <= COMMAND_MAX_BYTES || command.is_char_boundary(COMMAND_CUT_BYTES)
}

/// The command as shown in the table.
pub fn truncate_command(command: &str) -> (r: String)
    requires
        command_cuttable(command@),
    ensures
        r@ == shown_command(command@),
{
    broadcast use vstd::utf8::encode_utf8_decode_utf8;

    if command.as_bytes().len() > COMMAND_MAX_BYTES {
        let (head, _tail) = command.split_at(COMMAND_CUT_BYTES);
        let mut r = String::from_str(head);
        r.append("...");
        proof {
            assert(encode_utf8(head@) =~= encode_utf8(command@).subrange(0, 17));
            assert(decode_utf8(encode_utf8(head@)) == head@);
        }
        r
    } else {
        String::from_str(command)
    }
}

/// Whole seconds from `then` to the instant `now_secs` + `now_nanos`
/// nanoseconds, rounded toward zero.
pub open spec fn whole_seconds_between(then: i64, now_secs: i64, now_nanos: u32) -> int {
    let d = now_secs - then;
    if d < 0 && now_nanos > 0 {
        d + 1
    } else {
        d
    }
}

/// The seconds since a container was created at `created`, when chrono can
/// represent that instant.
pub open spec fn elapsed_since(created: u64, now_secs: i64, now_nanos: u32) -> Option<int> {
    let then = created as i64;
    if utc_timestamp_representable(then) {
        Some(whole_seconds_between(then, now_secs, now_nanos))
    } else {
        None
    }
}

/// How long ago something happened, in the largest whole unit that is at
/// least one, or `Unknown`.
pub open spec fn age_phrase(elapsed: Option<int>) -> Seq<char> {
    match elapsed {
        None => "Unknown"@,
        Some(s) => if s >= 86400 {
            decimal((s / 86400) as nat) + " days ago"@
        } else if s >= 3600 {
            decimal((s / 3600) as nat) + " hours ago"@
        } else if s >= 60 {
            decimal((s / 60) as nat) + " minutes ago"@
        } else {
            signed_decimal(s) + " seconds ago"@
        },
    }
}

/// The seconds between the creation time `created` and the instant
/// `now_secs` + `now_nanos` nanoseconds.
pub fn elapsed_seconds(created: u64, now_secs: i64, now_nanos: u32) -> (r: Option<i128>)
    ensures
        match elapsed_since(created, now_secs, now_nanos) {
            Some(s) => r == Some(s as i128),
            None => r is None,
        },
{
    let then = created as i64;
    if timestamp_representable(then) {
        let d: i128 = now_secs as i128 - then as i128;
        if d < 0 && now_nanos > 0 {
            Some(d + 1)
        } else {
            Some(d)
        }
    } else {
        None
    }
}

/// Says how long ago, given the seconds elapsed (none when the time is unknown).
pub fn age_text(elapsed: Option<i128>) -> (r: String)
    ensures
        r@ == age_phrase(
            match elapsed {
                Some(s) => Some(s as int),
                None => None,
            },
        ),
{
    match elapsed {
        None => String::from_str("Unknown"),
        Some(s) => {
            if s >= 86400 {
                let mut t = u128_to_decimal((s as u128) / 86400);
                t.append(" days ago");
                t
            } else if s >= 3600 {
                let mut t = u128_to_decimal((s as u128) / 3600);
                t.append(" hours ago");
                t
            } else if s >= 60 {
                let mut t = u128_to_decimal((s as u128) / 60);
                t.append(" minutes ago");
                t
            } else {
                let mut t = i128_to_decimal(s);
                t.append(" seconds ago");
                t
            }
        },
    }
}

/// When a container was created, relative to now (`now_secs` seconds and
/// `now_nanos` nanoseconds after the Unix epoch).
pub fn created_text(created: u64, now_secs: i64, now_nanos: u32) -> (r: String)
    ensures
        r@ == age_phrase(elapsed_since(created, now_secs, now_nanos)),
{
    age_text(elapsed_seconds(created, now_secs, now_nanos))
}

/// How a container's status is coloured, by its state.
#[derive(Debug, Clone, Copy, PartialEq, Eq, Structural)]
pub enum StatusStyle {
    Green,
    Yellow,
    Red,
    Normal,
}

/// The colour of a status: green when running, yellow when paused, red when
/// exited, plain otherwise.
pub open spec fn style_of(state: Seq<char>) -> StatusStyle {
    if state == "running"@ {
        StatusStyle::Green
    } else if state == "paused"@ {
        StatusStyle::Yellow
    } else if state == "exited"@ {
        StatusStyle::Red
    } else {
        StatusStyle::Normal
    }
}

/// The colour of the status of a container in `state`.
pub fn status_style(state: &str) -> (r: StatusStyle)
    ensures
        r == style_of(state@),
{
    if same_text(state, "running") {
        StatusStyle::Green
    } else if same_text(state, "paused") {
        StatusStyle::Yellow
    } else if same_text(state, "exited") {
        StatusStyle::Red
    } else {
        StatusStyle::Normal
    }
}

/// How a port is written: `ip:public->private/type` when published on an
/// address, `public:private/type` when published on none, else `private/type`.
pub open spec fn port_text(
    ip: Option<Seq<char>>,
    private_port: u16,
    pub_port: Option<u16>,
    port_type: Seq<char>,
) -> Seq<char> {
    match (ip, pub_port) {
        (Some(a), Some(p)) => a + ":"@ + decimal(p as nat) + "->"@ + decimal(private_port as nat)
            + "/"@ + port_type,
        (None, Some(p)) => decimal(p as nat) + ":"@ + decimal(private_port as nat) + "/"@
            + port_type,
        _ => decimal(private_port as nat) + "/"@ + port_type,
    }
}

/// The text of a port, by its fields.
pub open spec fn port_view(p: Port) -> Seq<char> {
    port_text(
        match p.ip {
            Some(a) => Some(a@),
            None => None,
        },
        p.private_port,
        p.pub_port,
        p.port_type@,
    )
}

/// Writes one port.
pub fn format_port(port: &Port) -> (r: String)
    ensures
        r@ == port_view(*port),
{
    match (&port.ip, port.pub_port) {
        (Some(ip), Some(public_port)) => {
            let mut t = String::from_str(ip.as_str());
            t.append(":");
            t.append(u64_to_decimal(public_port as u64).as_str());
            t.append("->");
            t.append(u64_to_decimal(port.private_port as u64).as_str());
            t.append("/");
            t.append(port.port_type.as_str());
            t
        },
        (None, Some(public_port)) => {
            let mut t = u64_to_decimal(public_port as u64);
            t.append(":");
            t.append(u64_to_decimal(port.private_port as u64).as_str());
            t.append("/");
            t.append(port.port_type.as_str());
            t
        },
        _ => {
            let mut t = u64_to_decimal(port.private_port as u64);
            t.append("/");
            t.append(port.port_type.as_str());
            t
        },
    }
}

/// The ports of a container as shown: each one written, joined by `, `.
pub open spec fn ports_text(ports: Option<Seq<Port>>) -> Seq<char> {
    match ports {
        Some(ps) => join_with(ps.map_values(|p: Port| port_view(p)), ", "@),
        None => Seq::empty(),
    }
}

/// Writes the ports of a container.
pub fn format_ports(ports: &Option<Vec<Port>>) -> (r: String)
    ensures
        r@ == ports_text(
            match ports {
                Some(ps) => Some(ps@),
                None => None,
            },
        ),
{
    match ports {
        Some(ps) => {
            let mut texts: Vec<String> = Vec::new();
            let mut i: usize = 0;
            while i < ps.len()
                invariant
                    i <= ps.len(),
                    texts.len() == i,
                    forall|j: int| 0 <= j < i ==> #[trigger] texts[j]@ == port_view(ps[j]),
                decreases ps.len() - i,
            {
                texts.push(format_port(&ps[i]));
                i = i + 1;
            }
            proof {
                assert(texts@.map_values(|t: String| t@) =~= ps@.map_values(
                    |p: Port| port_view(p),
                ));
            }
            join(&texts, ", ")
        },
        None => String::new(),
    }
}

/// One row of the container table.
#[derive(Debug, Clone)]
pub struct ContainerRow {
    pub short_id: String,
    pub image: String,
    pub command: String,
    pub created: String,
    pub status: String,
    pub status_style: StatusStyle,
    pub ports: String,
    pub name: String,
}

/// The row shown for `c` at the instant `now_secs` + `now_nanos` nanoseconds.
pub open spec fn row_matches(row: ContainerRow, c: Container, now_secs: i64, now_nanos: u32) -> bool {
    &&& row.short_id@ == first_chars(c.id@, SHORT_ID_LEN as int)
    &&& row.image@ == c.image@
    &&& row.command@ == shown_command(c.command@)
    &&& row.created@ == age_phrase(elapsed_since(c.created, now_secs, now_nanos))
    &&& row.status@ == c.status@
    &&& row.status_style == style_of(c.state@)
    &&& row.ports@ == ports_text(
        match c.ports {
            Some(ps) => Some(ps@),
            None => None,
        },
    )
    &&& row.name@ == shown_name(
        match c.names {
            Some(ns) => Some(ns@.map_values(|n: String| n@)),
            None => None,
        },
    )
}

/// The table row of a container.
pub fn container_row(c: &Container, now_secs: i64, now_nanos: u32) -> (r: ContainerRow)
    requires
        command_cuttable(c.command@),
    ensures
        row_matches(r, *c, now_secs, now_nanos),
{
    ContainerRow {
        short_id: short_id(c.id.as_str()),
        image: c.image.clone(),
        command: truncate_command(c.command.as_str()),
        created: created_text(c.created, now_secs, now_nanos),
        status: c.status.clone(),
        status_style: status_style(c.state.as_str()),
        ports: format_ports(&c.ports),
        name: container_name(&c.names),
    }
}

/// The notice shown when there are no containers to list.
pub fn no_containers_notice() -> (r: String)
    ensures
        r@ == "no containers found"@,
{
    String::from_str("no containers found")
}

/// What is shown for a list of containers.
#[derive(Debug, Clone)]
pub enum ContainersView {
    /// The list is empty.
    NoContainers,
    /// The short ids, one per line.
    ShortIds(Vec<String>),
    /// A table with one row per container.
    Rows(Vec<ContainerRow>),
}

/// What is shown for `containers`: a notice when there are none, the short ids
/// when `quiet`, else one table row per container, in order.
pub fn containers_view(containers: &Vec<Container>, quiet: bool, now_secs: i64, now_nanos: u32) -> (r:
    ContainersView)
    requires
        quiet || forall|i: int|
            0 <= i < containers.len() ==> command_cuttable(#[trigger] containers[i].command@),
    ensures
        containers.len() == 0 ==> r is NoContainers,
        containers.len() > 0 && quiet ==> (r matches ContainersView::ShortIds(ids) && ids.len()
            == containers.len() && forall|i: int|
            0 <= i < ids.len() ==> #[trigger] ids[i]@ == first_chars(
                containers[i].id@,
                SHORT_ID_LEN as int,
            )),
        containers.len() > 0 && !quiet ==> (r matches ContainersView::Rows(rows) && rows.len()
            == containers.len() && forall|i: int|
            0 <= i < rows.len() ==> row_matches(#[trigger] rows[i], containers[i], now_secs, now_nanos)),
{
    if containers.len() == 0 {
        return ContainersView::NoContainers;
    }
    if quiet {
        let mut ids: Vec<String> = Vec::new();
        let mut i: usize = 0;
        while i < containers.len()
            invariant
                i <= containers.len(),
                ids.len() == i,
                forall|j: int|
                    0 <= j < i ==> #[trigger] ids[j]@ == first_chars(
                        containers[j].id@,
                        SHORT_ID_LEN as int,
                    ),
            decreases containers.len() - i,
        {
            ids.push(short_id(containers[i].id.as_str()));
            i = i + 1;
        }
        ContainersView::ShortIds(ids)
    } else {
        let mut rows: Vec<ContainerRow> = Vec::new();
        let mut i: usize = 0;
        while i < containers.len()
            invariant
                i <= containers.len(),
                rows.len() == i,
                forall|k: int|
                    0 <= k < containers.len() ==> command_cuttable(#[trigger] containers[k].command@),
                forall|j: int|
                    0 <= j < i ==> row_matches(#[trigger] rows[j], containers[j], now_secs, now_nanos),
            decreases containers.len() - i,
        {
            rows.push(container_row(&containers[i], now_secs, now_nanos));
            i = i + 1;
        }
        ContainersView::Rows(rows)
    }
}

/// The column titles of the container table.
pub fn containers_table_titles() -> (r: Vec<String>)
    ensures
        r@.map_values(|t: String| t@) == seq![
            "CONTAINER ID"@,
            "IMAGE"@,
            "COMMAND"@,
            "CREATED"@,
            "STATUS"@,
            "PORTS"@,
            "NAMES"@,
        ],
{
    let mut r: Vec<String> = Vec::new();
    r.push(String::from_str("CONTAINER ID"));
    r.push(String::from_str("IMAGE"));
    r.push(String::from_str("COMMAND"));
    r.push(String::from_str("CREATED"));
    r.push(String::from_str("STATUS"));
    r.push(String::from_str("PORTS"));
    r.push(String::from_str("NAMES"));
    proof {
        assert(r@.map_values(|t: String| t@) =~= seq![
            "CONTAINER ID"@,
            "IMAGE"@,
            "COMMAND"@,
            "CREATED"@,
            "STATUS"@,
            "PORTS"@,
            "NAMES"@,
        ]);
    }
    r
}

/// The networks of a usage sample, none when it reports none.
pub open spec fn networks_of(networks: Option<Vec<(String, NetworkStats)>>) -> Seq<(String, NetworkStats)> {
    match networks {
        Some(ns) => ns@,
        None => Seq::empty(),
    }
}

/// Bytes received over all of `nets`.
pub open spec fn total_rx(nets: Seq<(String, NetworkStats)>) -> nat
    decreases nets.len(),
{
    if nets.len() == 0 {
        0
    } else {
        total_rx(nets.drop_last()) + nets.last().1.rx_bytes as nat
    }
}

/// Bytes sent over all of `nets`.
pub open spec fn total_tx(nets: Seq<(String, NetworkStats)>) -> nat
    decreases nets.len(),
{
    if nets.len() == 0 {
        0
    } else {
        total_tx(nets.drop_last()) + nets.last().1.tx_bytes as nat
    }
}

proof fn lemma_totals_prefix(nets: Seq<(String, NetworkStats)>, i: int)
    requires
        0 <= i <= nets.len(),
    ensures
        total_rx(nets.take(i)) <= total_rx(nets),
        total_tx(nets.take(i)) <= total_tx(nets),
    decreases nets.len() - i,
{
    if i < nets.len() {
        lemma_totals_prefix(nets, i + 1);
        assert(nets.take(i + 1).drop_last() =~= nets.take(i));
    } else {
        assert(nets.take(i) =~= nets);
    }
}

/// The totals over two groups of networks are the sums of the totals of
/// each group, so they do not depend on the order the networks come in.
pub proof fn lemma_totals_split(a: Seq<(String, NetworkStats)>, b: Seq<(String, NetworkStats)>)
    ensures
        total_rx(a + b) == total_rx(a) + total_rx(b),
        total_tx(a + b) == total_tx(a) + total_tx(b),
        total_rx(a + b) == total_rx(b + a),
        total_tx(a + b) == total_tx(b + a),
{
    lemma_totals_append(a, b);
    lemma_totals_append(b, a);
}

proof fn lemma_totals_append(a: Seq<(String, NetworkStats)>, b: Seq<(String, NetworkStats)>)
    ensures
        total_rx(a + b) == total_rx(a) + total_rx(b),
        total_tx(a + b) == total_tx(a) + total_tx(b),
    decreases b.len(),
{
    if b.len() == 0 {
        assert(a + b =~= a);
    } else {
        assert((a + b).drop_last() =~= a + b.drop_last());
        assert((a + b).last() == b.last());
        lemma_totals_append(a, b.drop_last());
    }
}

/// Two listings of the same networks, in whatever order, give the same
/// totals. A sample's networks are listed from a JSON object, so each network
/// occurs once (`ContainerStats::wf`) and only the order can vary.
pub proof fn lemma_totals_permutation(a: Seq<(String, NetworkStats)>, b: Seq<(String, NetworkStats)>)
    requires
        a.to_multiset() == b.to_multiset(),
    ensures
        total_rx(a) == total_rx(b),
        total_tx(a) == total_tx(b),
    decreases a.len(),
{
    broadcast use vstd::seq_lib::group_to_multiset_ensures, vstd::multiset::group_multiset_axioms;

    if a.len() == 0 {
        assert(b.len() == b.to_multiset().len());
        assert(a.len() == a.to_multiset().len());
        assert(b.len() == 0);
    } else {
        let x = a.last();
        let a1 = a.drop_last();
        assert(a =~= a1.push(x));
        assert(a.to_multiset() =~= a1.to_multiset().insert(x));
        assert(b.to_multiset().count(x) > 0);
        assert(b.contains(x));
        let k = choose|k: int| 0 <= k < b.len() && b[k] == x;
        let b1 = b.remove(k);
        assert(b1.to_multiset() == b.to_multiset().remove(b[k]));
        assert(b1.to_multiset() =~= a1.to_multiset());
        lemma_totals_permutation(a1, b1);
        let front = b.take(k);
        let back = b.skip(k + 1);
        assert(b =~= front + seq![x] + back);
        assert(b1 =~= front + back);
        lemma_totals_append(front + seq![x], back);
        lemma_totals_append(front, seq![x]);
        lemma_totals_append(front, back);
        assert(seq![x].drop_last() =~= Seq::<(String, NetworkStats)>::empty());
        assert(total_rx(Seq::<(String, NetworkStats)>::empty()) == 0);
        assert(total_tx(Seq::<(String, NetworkStats)>::empty()) == 0);
    }
}

/// Two well-formed listings that hold the same networks give the same totals.
pub proof fn lemma_totals_same_networks(
    a: Seq<(String, NetworkStats)>,
    b: Seq<(String, NetworkStats)>,
)
    requires
        keys_distinct(a),
        keys_distinct(b),
        forall|e: (String, NetworkStats)| a.contains(e) <==> b.contains(e),
    ensures
        total_rx(a) == total_rx(b),
        total_tx(a) == total_tx(b),
{
    broadcast use vstd::seq_lib::group_to_multiset_ensures, vstd::multiset::group_multiset_axioms;

    assert(a.no_duplicates()) by {
        assert forall|i: int, j: int| 0 <= i < a.len() && 0 <= j < a.len() && i != j implies a[i]
            != a[j] by {
            if i < j {
                assert(a[i].0@ != a[j].0@);
            } else {
                assert(a[j].0@ != a[i].0@);
            }
        }
    }
    assert(b.no_duplicates()) by {
        assert forall|i: int, j: int| 0 <= i < b.len() && 0 <= j < b.len() && i != j implies b[i]
            != b[j] by {
            if i < j {
                assert(b[i].0@ != b[j].0@);
            } else {
                assert(b[j].0@ != b[i].0@);
            }
        }
    }
    a.lemma_multiset_has_no_duplicates();
    b.lemma_multiset_has_no_duplicates();
    assert forall|e: (String, NetworkStats)| a.to_multiset().count(e) == b.to_multiset().count(e) by {
        if a.contains(e) {
            assert(a.to_multiset().contains(e));
            assert(b.to_multiset().contains(e));
        } else {
            assert(!b.contains(e));
        }
    }
    assert(a.to_multiset() =~= b.to_multiset());
    lemma_totals_permutation(a, b);
}

/// Bytes received and sent over all networks of a sample.
pub fn network_totals(networks: &Option<Vec<(String, NetworkStats)>>) -> (r: (u64, u64))
    requires
        total_rx(networks_of(*networks)) <= u64::MAX,
        total_tx(networks_of(*networks)) <= u64::MAX,
    ensures
        r.0 == total_rx(networks_of(*networks)),
        r.1 == total_tx(networks_of(*networks)),
{
    match checked_network_totals(networks) {
        Some(totals) => totals,
        None => (0, 0),
    }
}

/// Bytes received and sent over all networks of a sample, or `None` when
/// either total does not fit in 64 bits.
pub fn checked_network_totals(networks: &Option<Vec<(String, NetworkStats)>>) -> (r: Option<
    (u64, u64),
>)
    ensures
        match r {
            Some((rx, tx)) => rx == total_rx(networks_of(*networks)) && tx == total_tx(
                networks_of(*networks),
            ),
            None => total_rx(networks_of(*networks)) > u64::MAX || total_tx(networks_of(*networks))
                > u64::MAX,
        },
{
    let mut rx: u64 = 0;
    let mut tx: u64 = 0;
    match networks {
        Some(ns) => {
            let ghost all = ns@;
            let mut i: usize = 0;
            while i < ns.len()
                invariant
                    i <= ns.len(),
                    all == ns@,
                    networks_of(*networks) == all,
                    rx == total_rx(all.take(i as int)),
                    tx == total_tx(all.take(i as int)),
                decreases ns.len() - i,
            {
                proof {
                    lemma_totals_prefix(all, i + 1);
                    assert(all.take(i + 1).drop_last() =~= all.take(i as int));
                    assert(all.take(i + 1).last() == all[i as int]);
                    assert(total_rx(all.take(i + 1)) == rx + all[i as int].1.rx_bytes);
                    assert(total_tx(all.take(i + 1)) == tx + all[i as int].1.tx_bytes);
                }
                match (rx.checked_add(ns[i].1.rx_bytes), tx.checked_add(ns[i].1.tx_bytes)) {
                    (Some(r2), Some(t2)) => {
                        rx = r2;
                        tx = t2;
                    },
                    _ => {
                        return None;
                    },
                }
                i = i + 1;
            }
            proof {
                assert(all.take(ns.len() as int) =~= all);
            }
        },
        None => {},
    }
    Some((rx, tx))
}

/// The quantities a processor share is computed from: processor time the
/// container used between two samples, processor time the system used, and
/// the number of processors.
#[derive(Debug, Clone, Copy, PartialEq, Eq, Structural)]
pub struct CpuShare {
    pub cpu_delta: u64,
    pub system_delta: u64,
    pub online_cpus: u32,
}

/// The processor share of a sample: there when both system counters are
/// reported and both the container's and the system's counters grew.
pub open spec fn cpu_share_of(s: ContainerStats) -> Option<CpuShare> {
    let used = s.cpu_stats.cpu_usage.total_usage;
    let used_before = s.precpu_stats.cpu_usage.total_usage;
    match (s.cpu_stats.system_cpu_usage, s.precpu_stats.system_cpu_usage) {
        (Some(system), Some(system_before)) => if system > system_before && used > used_before {
            Some(
                CpuShare {
                    cpu_delta: (used - used_before) as u64,
                    system_delta: (system - system_before) as u64,
                    online_cpus: match s.cpu_stats.online_cpus {
                        Some(n) => n,
                        None => 1,
                    },
                },
            )
        } else {
            None
        },
        _ => None,
    }
}

/// The processor share of a usage sample (see `cpu_share_of`).
pub fn cpu_share(stats: &ContainerStats) -> (r: Option<CpuShare>)
    ensures
        r == cpu_share_of(*stats),
{
    let used = stats.cpu_stats.cpu_usage.total_usage;
    let used_before = stats.precpu_stats.cpu_usage.total_usage;
    match (stats.cpu_stats.system_cpu_usage, stats.precpu_stats.system_cpu_usage) {
        (Some(system), Some(system_before)) => {
            if system > system_before && used > used_before {
                let online_cpus = match stats.cpu_stats.online_cpus {
                    Some(n) => n,
                    None => 1,
                };
                Some(
                    CpuShare {
                        cpu_delta: used - used_before,
                        system_delta: system - system_before,
                        online_cpus,
                    },
                )
            } else {
                None
            }
        },
        _ => None,
    }
}

/// Two quantities written as `first / second`.
pub fn slash_pair(first: &str, second: &str) -> (r: String)
    ensures
        r@ == first@ + " / "@ + second@,
{
    let mut t = String::from_str(first);
    t.append(" / ");
    t.append(second);
    t
}

/// One row of the usage table.
#[derive(Debug, Clone)]
pub struct StatsRow {
    pub short_id: String,
    pub name: String,
    /// What the processor percentage is computed from; none gives zero.
    pub cpu: Option<CpuShare>,
    /// Memory in use and its limit, as text.
    pub memory: String,
    /// Memory in use and its limit, when the limit is not zero; none gives zero percent.
    pub memory_share: Option<(u64, u64)>,
    pub net_io: String,
    pub block_io: String,
}

/// Memory in use in a sample (zero when not reported).
pub open spec fn memory_usage_of(s: ContainerStats) -> u64 {
    match s.memory_stats.usage {
        Some(u) => u,
        None => 0,
    }
}

/// The memory limit in a sample (zero when not reported).
pub open spec fn memory_limit_of(s: ContainerStats) -> u64 {
    match s.memory_stats.limit {
        Some(l) => l,
        None => 0,
    }
}

/// The row shown for the usage sample `s`.
pub open spec fn stats_row_matches(row: StatsRow, s: ContainerStats) -> bool {
    let usage = memory_usage_of(s);
    let limit = memory_limit_of(s);
    let nets = networks_of(s.networks);
    &&& row.short_id@ == first_chars(s.id@, SHORT_ID_LEN as int)
    &&& row.name@ == trim_leading(s.name@, '/')
    &&& row.cpu == cpu_share_of(s)
    &&& row.memory@ == decimal_size_text(usage) + " / "@ + decimal_size_text(limit)
    &&& row.memory_share == if limit > 0 {
        Some((usage, limit))
    } else {
        None
    }
    &&& row.net_io@ == decimal_size_text(total_rx(nets) as u64) + " / "@ + decimal_size_text(
        total_tx(nets) as u64,
    )
    &&& row.block_io@ == "N/A"@
}

/// The usage row of a sample.
pub fn stats_row(stats: &ContainerStats) -> (r: StatsRow)
    requires
        total_rx(networks_of(stats.networks)) <= u64::MAX,
        total_tx(networks_of(stats.networks)) <= u64::MAX,
    ensures
        stats_row_matches(r, *stats),
{
    let usage = match stats.memory_stats.usage {
        Some(u) => u,
        None => 0,
    };
    let limit = match stats.memory_stats.limit {
        Some(l) => l,
        None => 0,
    };
    let memory = slash_pair(format_size_decimal(usage).as_str(), format_size_decimal(limit).as_str());
    let memory_share = if limit > 0 {
        Some((usage, limit))
    } else {
        None
    };
    let (rx, tx) = network_totals(&stats.networks);
    let net_io = slash_pair(format_size_decimal(rx).as_str(), format_size_decimal(tx).as_str());
    StatsRow {
        short_id: short_id(stats.id.as_str()),
        name: trim_start_char(stats.name.as_str(), '/'),
        cpu: cpu_share(stats),
        memory,
        memory_share,
        net_io,
        block_io: String::from_str("N/A"),
    }
}

/// The column titles of the usage table.
pub fn stats_table_titles() -> (r: Vec<String>)
    ensures
        r@.map_values(|t: String| t@) == seq![
            "CONTAINER ID"@,
            "NAME"@,
            "CPU %"@,
            "MEM USAGE / LIMIT"@,
            "MEM %"@,
            "NET I/O"@,
            "BLOCK I/O"@,
        ],
{
    let mut r: Vec<String> = Vec::new();
    r.push(String::from_str("CONTAINER ID"));
    r.push(String::from_str("NAME"));
    r.push(String::from_str("CPU %"));
    r.push(String::from_str("MEM USAGE / LIMIT"));
    r.push(String::from_str("MEM %"));
    r.push(String::from_str("NET I/O"));
    r.push(String::from_str("BLOCK I/O"));
    proof {
        assert(r@.map_values(|t: String| t@) =~= seq![
            "CONTAINER ID"@,
            "NAME"@,
            "CPU %"@,
            "MEM USAGE / LIMIT"@,
            "MEM %"@,
            "NET I/O"@,
            "BLOCK I/O"@,
        ]);
    }
    r
}

/// A port is written ending in its private port and its own protocol,
/// `<private>/<type>`; a published port is written starting with its public
/// port, after `<ip>:` when it is published on an address.
pub proof fn lemma_port_text(p: Port)
    ensures
        ({
            let t = port_view(p);
            let tail = decimal(p.private_port as nat) + "/"@ + p.port_type@;
            &&& t.len() >= tail.len()
            &&& t.skip(t.len() - tail.len()) == tail
        }),
        p.pub_port matches Some(pp) ==> ({
            let t = port_view(p);
            let head = match p.ip {
                Some(a) => a@ + ":"@ + decimal(pp as nat),
                None => decimal(pp as nat),
            };
            &&& t.len() >= head.len()
            &&& t.take(head.len() as int) == head
        }),
{
    let t = port_view(p);
    let tail = decimal(p.private_port as nat) + "/"@ + p.port_type@;
    match (p.ip, p.pub_port) {
        (Some(a), Some(pp)) => {
            let head = a@ + ":"@ + decimal(pp as nat);
            let mid = "->"@;
            assert(t =~= head + mid + tail);
            assert(t.skip(t.len() - tail.len()) =~= tail);
            assert(t.take(head.len() as int) =~= head);
        },
        (None, Some(pp)) => {
            let head = decimal(pp as nat);
            assert(t =~= head + ":"@ + tail);
            assert(t.skip(t.len() - tail.len()) =~= tail);
            assert(t.take(head.len() as int) =~= head);
        },
        _ => {
            assert(t =~= tail);
            assert(t.skip(0) =~= tail);
        },
    }
}

/// The usage row shows memory as `<in use> / <limit>` and network traffic as
/// `<received> / <sent>`, each side the size text of its own total; with one
/// network those totals are its own byte counts.
pub proof fn lemma_stats_row_texts(row: StatsRow, s: ContainerStats)
    requires
        stats_row_matches(row, s),
    ensures
        row.memory@ == decimal_size_text(
            match s.memory_stats.usage {
                Some(u) => u,
                None => 0,
            },
        ) + " / "@ + decimal_size_text(
            match s.memory_stats.limit {
                Some(l) => l,
                None => 0,
            },
        ),
        row.net_io@ == decimal_size_text(total_rx(networks_of(s.networks)) as u64) + " / "@
            + decimal_size_text(total_tx(networks_of(s.networks)) as u64),
        forall|k: String, n: NetworkStats|
            networks_of(s.networks) == seq![(k, n)] ==> row.net_io@ == decimal_size_text(n.rx_bytes)
                + " / "@ + decimal_size_text(n.tx_bytes),
{
    assert forall|k: String, n: NetworkStats|
        networks_of(s.networks) == seq![(k, n)] implies row.net_io@ == decimal_size_text(
        n.rx_bytes,
    ) + " / "@ + decimal_size_text(n.tx_bytes) by {
        let one = seq![(k, n)];
        assert(one.drop_last() =~= Seq::<(String, NetworkStats)>::empty());
        assert(total_rx(Seq::<(String, NetworkStats)>::empty()) == 0);
        assert(total_tx(Seq::<(String, NetworkStats)>::empty()) == 0);
        assert(total_rx(one) == n.rx_bytes);
        assert(total_tx(one) == n.tx_bytes);
    }
}

/// A processor share is there exactly when both samples report the system's
/// processor time and both it and the container's grew; it then holds the
/// growth of each, and the processor count reported, or one.
pub proof fn lemma_cpu_share(s: ContainerStats)
    ensures
        cpu_share_of(s) is Some <==> (s.cpu_stats.system_cpu_usage is Some
            && s.precpu_stats.system_cpu_usage is Some
            && s.cpu_stats.system_cpu_usage->0 > s.precpu_stats.system_cpu_usage->0
            && s.cpu_stats.cpu_usage.total_usage > s.precpu_stats.cpu_usage.total_usage),
        cpu_share_of(s) matches Some(c) ==> {
            &&& s.precpu_stats.cpu_usage.total_usage + c.cpu_delta
                == s.cpu_stats.cpu_usage.total_usage
            &&& s.precpu_stats.system_cpu_usage->0 + c.system_delta
                == s.cpu_stats.system_cpu_usage->0
            &&& c.online_cpus == (if s.cpu_stats.online_cpus is Some {
                s.cpu_stats.online_cpus->0
            } else {
                1
            })
        },
{
}

/// The short form of an id is its first twelve characters, or the whole id
/// when it is shorter.
pub proof fn lemma_short_id(id: Seq<char>)
    ensures
        id.len() >= 12 ==> first_chars(id, SHORT_ID_LEN as int).len() == 12 && forall|i: int|
            0 <= i < 12 ==> #[trigger] first_chars(id, SHORT_ID_LEN as int)[i] == id[i],
        id.len() < 12 ==> first_chars(id, SHORT_ID_LEN as int) == id,
{
}

/// A command of at most twenty UTF-8 bytes is shown whole; a longer one is
/// shown as its first seventeen bytes followed by `...`.
pub proof fn lemma_shown_command(command: Seq<char>)
    requires
        command_cuttable(command),
    ensures
        encode_utf8(command).len() <= 20 ==> shown_command(command) == command,
        encode_utf8(command).len() > 20 ==> encode_utf8(shown_command(command)) == encode_utf8(
            command,
        ).take(17) + encode_utf8("..."@),
{
    broadcast use vstd::utf8::decode_utf8_encode_utf8, vstd::utf8::encode_utf8_valid_utf8;

    let bytes = encode_utf8(command);
    if bytes.len() > 20 {
        let head = bytes.take(17);
        assert(bytes.subrange(0, 17) =~= head);
        vstd::utf8::valid_utf8_split(bytes, 17);
        assert(encode_utf8(decode_utf8(head)) == head);
        lemma_encode_utf8_append(decode_utf8(head), "..."@);
    }
}

/// The UTF-8 bytes of two texts joined are the bytes of each, joined.
pub proof fn lemma_encode_utf8_append(a: Seq<char>, b: Seq<char>)
    ensures
        encode_utf8(a + b) == encode_utf8(a) + encode_utf8(b),
    decreases a.len(),
{
    if a.len() == 0 {
        assert(a + b =~= b);
        assert(encode_utf8(a) =~= Seq::<u8>::empty());
        assert(encode_utf8(a) + encode_utf8(b) =~= encode_utf8(b));
    } else {
        assert((a + b).drop_first() =~= a.drop_first() + b);
        assert((a + b)[0] == a[0]);
        lemma_encode_utf8_append(a.drop_first(), b);
        assert(encode_utf8(a + b) =~= encode_utf8(a) + encode_utf8(b));
    }
}

/// The name shown is the first name after its leading `/`s: what is left
/// does not start with `/`, and only `/`s were taken off.
pub proof fn lemma_trimmed_name(name: Seq<char>)
    ensures
        ({
            let r = trim_leading(name, '/');
            let k = name.len() - r.len();
            &&& r.len() <= name.len()
            &&& name.skip(k) == r
            &&& forall|i: int| 0 <= i < k ==> name[i] == '/'
            &&& r.len() > 0 ==> r[0] != '/'
        }),
    decreases name.len(),
{
    if name.len() > 0 && name[0] == '/' {
        let rest = name.drop_first();
        lemma_trimmed_name(rest);
        let r = trim_leading(name, '/');
        let k = name.len() - r.len();
        assert(name.skip(k) =~= rest.skip(k - 1));
        assert forall|i: int| 0 <= i < k implies name[i] == '/' by {
            if i > 0 {
                assert(name[i] == rest[i - 1]);
            }
        }
    } else {
        assert(name.skip(0) =~= name);
    }
}

/// How long ago is told in the largest unit that fits: `n days ago` when `n`
/// whole days have passed and a day at least, then hours, then minutes, then
/// seconds; `Unknown` when the time is not known.
pub proof fn lemma_age_phrase(s: int, n: nat)
    ensures
        age_phrase(None) == "Unknown"@,
        s >= 86400 && n * 86400 <= s < (n + 1) * 86400 ==> age_phrase(Some(s)) == decimal(n)
            + " days ago"@,
        3600 <= s < 86400 && n * 3600 <= s < (n + 1) * 3600 ==> age_phrase(Some(s)) == decimal(n)
            + " hours ago"@,
        60 <= s < 3600 && n * 60 <= s < (n + 1) * 60 ==> age_phrase(Some(s)) == decimal(n)
            + " minutes ago"@,
        s < 60 ==> age_phrase(Some(s)) == signed_decimal(s) + " seconds ago"@,
{
    if s >= 86400 && n * 86400 <= s < (n + 1) * 86400 {
        assert(s / 86400 == n) by (nonlinear_arith)
            requires
                n * 86400 <= s < (n + 1) * 86400,
        ;
    }
    if 3600 <= s < 86400 && n * 3600 <= s < (n + 1) * 3600 {
        assert(s / 3600 == n) by (nonlinear_arith)
            requires
                n * 3600 <= s < (n + 1) * 3600,
        ;
    }
    if 60 <= s < 3600 && n * 60 <= s < (n + 1) * 60 {
        assert(s / 60 == n) by (nonlinear_arith)
            requires
                n * 60 <= s < (n + 1) * 60,
        ;
    }
}

/// The seconds since creation are the whole seconds between the creation
/// time and now, rounded toward zero: `now` is `now_secs` seconds and
/// `now_nanos` nanoseconds, below a second.
pub proof fn lemma_elapsed_rounds_toward_zero(created: u64, now_secs: i64, now_nanos: u32)
    requires
        now_nanos < 1_000_000_000,
        utc_timestamp_representable(created as i64),
    ensures
        elapsed_since(created, now_secs, now_nanos) matches Some(e) && ({
            let exact = (now_secs - created as i64) * 1_000_000_000 + now_nanos;
            &&& exact >= 0 ==> e * 1_000_000_000 <= exact < (e + 1) * 1_000_000_000
            &&& exact < 0 ==> (e - 1) * 1_000_000_000 < exact <= e * 1_000_000_000
        }),
{
}

} // verus!
