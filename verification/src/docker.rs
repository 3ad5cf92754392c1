//! The Engine API's data as this tool reads it, and the requests it sends.
//!
//! Maps that the Engine sends as JSON objects are held here as lists of
//! `(key, value)` pairs in the order they were read.
use vstd::prelude::*;
use crate::query::{
    full_path, is_plain, is_plain_char, lemma_one_plain_param, lemma_two_plain_params, param_views,
    path_with_query,
};
use crate::text::{decimal, u64_to_decimal};

verus! {

/// Where the Engine's socket is unless another path is given.
pub const DEFAULT_DOCKER_SOCKET: &'static str = "/var/run/docker.sock";

/// The Engine API version this tool speaks.
pub const DEFAULT_DOCKER_API_VERSION: &'static str = "v1.43";

/// A container as the list endpoint describes it.
#[derive(Debug, Clone)]
pub struct Container {
    pub id: String,
    pub names: Option<Vec<String>>,
    pub image: String,
    pub image_id: String,
    pub command: String,
    pub created: u64,
    pub state: String,
    pub status: String,
    pub ports: Option<Vec<Port>>,
    pub labels: Option<Vec<(String, String)>>,
    pub size_rw: Option<u64>,
    pub size_root_fs: Option<u64>,
    pub host_config: Option<HostConfig>,
    pub network_settings: Option<NetworkSettings>,
    pub mounts: Option<Vec<Mount>>,
}

/// A port of a container, published on the host or not.
#[derive(Debug, Clone)]
pub struct Port {
    pub ip: Option<String>,
    pub private_port: u16,
    pub pub_port: Option<u16>,
    pub port_type: String,
}

/// The host configuration of a container.
#[derive(Debug, Clone)]
pub struct HostConfig {
    pub network_mode: String,
}

/// The networks a container is attached to, by name.
#[derive(Debug, Clone)]
pub struct NetworkSettings {
    pub networks: Option<Vec<(String, NetworkInfo)>>,
}

/// A container's address in one network.
#[derive(Debug, Clone)]
pub struct NetworkInfo {
    pub ip_address: String,
    pub gateway: String,
}

/// A mount of a container.
#[derive(Debug, Clone)]
pub struct Mount {
    pub mount_type: String,
    pub source: String,
    pub destination: String,
    pub mode: String,
    pub rw: bool,
}

/// One sample of a container's resource usage.
#[derive(Debug, Clone)]
pub struct ContainerStats {
    pub name: String,
    pub id: String,
    pub cpu_stats: CpuStats,
    pub precpu_stats: CpuStats,
    pub memory_stats: MemoryStats,
    pub networks: Option<Vec<(String, NetworkStats)>>,
}

/// Processor usage counters.
#[derive(Debug, Clone)]
pub struct CpuStats {
    pub cpu_usage: CpuUsage,
    pub system_cpu_usage: Option<u64>,
    pub online_cpus: Option<u32>,
}

/// Processor time the container has used.
#[derive(Debug, Clone)]
pub struct CpuUsage {
    pub total_usage: u64,
}

/// Memory in use and the limit on it.
#[derive(Debug, Clone)]
pub struct MemoryStats {
    pub usage: Option<u64>,
    pub limit: Option<u64>,
}

/// Bytes received and sent on one network.
#[derive(Debug, Clone)]
pub struct NetworkStats {
    pub rx_bytes: u64,
    pub tx_bytes: u64,
}

/// Whether no key occurs twice among `(key, value)` pairs, as in the JSON
/// objects that such lists are read from.
pub open spec fn keys_distinct<V>(pairs: Seq<(String, V)>) -> bool {
    forall|i: int, j: int| 0 <= i < j < pairs.len() ==> pairs[i].0@ != pairs[j].0@
}

/// Whether a list of pairs that may be missing has distinct keys.
pub open spec fn optional_keys_distinct<V>(pairs: Option<Vec<(String, V)>>) -> bool {
    match pairs {
        Some(ps) => keys_distinct(ps@),
        None => true,
    }
}

impl Container {
    /// A container as the Engine describes it: no label and no network named twice.
    pub open spec fn wf(&self) -> bool {
        &&& optional_keys_distinct(self.labels)
        &&& match self.network_settings {
            Some(ns) => optional_keys_distinct(ns.networks),
            None => true,
        }
    }
}

impl ContainerStats {
    /// A usage sample as the Engine sends it: no network named twice.
    pub open spec fn wf(&self) -> bool {
        optional_keys_distinct(self.networks)
    }
}

/// The HTTP method of a request.
#[derive(Debug, Clone, Copy, PartialEq, Eq, Structural)]
pub enum Method {
    Get,
    Post,
    Delete,
}

/// A request to the Engine: its method, the resource it is about, and the
/// path it goes to, which is the resource followed by the query.
#[derive(Debug, Clone)]
pub struct ApiRequest {
    pub method: Method,
    pub resource: String,
    pub path: String,
}

impl View for ApiRequest {
    type V = (Method, Seq<char>);

    open spec fn view(&self) -> (Method, Seq<char>) {
        (self.method, self.path@)
    }
}

/// `true` or `false`, as the Engine's query parameters write them.
pub open spec fn bool_text(b: bool) -> Seq<char> {
    if b {
        "true"@
    } else {
        "false"@
    }
}

/// The path of a container's resource: `/containers/<id><tail>`.
pub open spec fn container_path(id: Seq<char>, tail: Seq<char>) -> Seq<char> {
    "/containers/"@ + id + tail
}

/// The query that gives a stop or restart its timeout, when there is one.
pub open spec fn timeout_params(timeout: Option<u64>) -> Option<Seq<(Seq<char>, Seq<char>)>> {
    match timeout {
        Some(t) => Some(seq![("t"@, decimal(t as nat))]),
        None => None,
    }
}

/// What the tool does to each container it is given.
#[derive(Debug, Clone, Copy, PartialEq, Eq, Structural)]
pub enum Operation {
    Start,
    Stop { timeout: Option<u64> },
    Restart { timeout: Option<u64> },
    Remove { force: bool, volumes: bool },
}

/// The resource that `op` on the container `id` is about (its path without query).
pub open spec fn operation_resource(op: Operation, id: Seq<char>) -> Seq<char> {
    match op {
        Operation::Start => container_path(id, "/start"@),
        Operation::Stop { .. } => container_path(id, "/stop"@),
        Operation::Restart { .. } => container_path(id, "/restart"@),
        Operation::Remove { .. } => container_path(id, Seq::empty()),
    }
}

/// The request that carries out `op` on the container `id`.
pub open spec fn operation_request(op: Operation, id: Seq<char>) -> (Method, Seq<char>) {
    match op {
        Operation::Start => (Method::Post, container_path(id, "/start"@)),
        Operation::Stop { timeout } => (
            Method::Post,
            full_path(container_path(id, "/stop"@), timeout_params(timeout)),
        ),
        Operation::Restart { timeout } => (
            Method::Post,
            full_path(container_path(id, "/restart"@), timeout_params(timeout)),
        ),
        Operation::Remove { force, volumes } => (
            Method::Delete,
            full_path(
                container_path(id, Seq::empty()),
                Some(seq![("force"@, bool_text(force)), ("v"@, bool_text(volumes))]),
            ),
        ),
    }
}

fn text(s: &str) -> (r: String)
    ensures
        r@ == s@,
{
    String::from_str(s)
}

fn bool_string(b: bool) -> (r: String)
    ensures
        r@ == bool_text(b),
{
    if b {
        text("true")
    } else {
        text("false")
    }
}

fn container_path_string(id: &str, tail: &str) -> (r: String)
    ensures
        r@ == container_path(id@, tail@),
{
    let mut p = text("/containers/");
    p.append(id);
    p.append(tail);
    p
}

fn build_request(method: Method, resource: String, query: &Option<Vec<(String, String)>>) -> (r:
    ApiRequest)
    ensures
        r.resource@ == resource@,
        r@ == (method, full_path(
            resource@,
            match query {
                Some(ps) => Some(param_views(ps@)),
                None => None,
            },
        )),
{
    let path = path_with_query(resource.as_str(), query);
    ApiRequest { method, resource, path }
}

fn timeout_query(timeout: Option<u64>) -> (r: Option<Vec<(String, String)>>)
    ensures
        match r {
            Some(ps) => timeout_params(timeout) == Some(param_views(ps@)),
            None => timeout_params(timeout) is None,
        },
{
    match timeout {
        Some(t) => {
            let mut ps: Vec<(String, String)> = Vec::new();
            ps.push((text("t"), u64_to_decimal(t)));
            proof {
                assert(param_views(ps@) =~= seq![("t"@, decimal(t as nat))]);
            }
            Some(ps)
        },
        None => None,
    }
}

/// The request that carries out `op` on the container `id`.
pub fn request_for(op: Operation, id: &str) -> (r: ApiRequest)
    ensures
        r@ == operation_request(op, id@),
        r.resource@ == operation_resource(op, id@),
{
    match op {
        Operation::Start => build_request(Method::Post, container_path_string(id, "/start"), &None),
        Operation::Stop { timeout } => {
            let q = timeout_query(timeout);
            build_request(Method::Post, container_path_string(id, "/stop"), &q)
        },
        Operation::Restart { timeout } => {
            let q = timeout_query(timeout);
            build_request(Method::Post, container_path_string(id, "/restart"), &q)
        },
        Operation::Remove { force, volumes } => {
            let base = container_path_string(id, "");
            proof {
                reveal_strlit("");
            }
            let mut ps: Vec<(String, String)> = Vec::new();
            ps.push((text("force"), bool_string(force)));
            ps.push((text("v"), bool_string(volumes)));
            let q = Some(ps);
            proof {
                assert(param_views(ps@) =~= seq![
                    ("force"@, bool_text(force)),
                    ("v"@, bool_text(volumes)),
                ]);
                assert(""@ =~= Seq::<char>::empty());
            }
            build_request(Method::Delete, base, &q)
        },
    }
}

/// The requests that carry out `op` on each of `ids`, one per id and in the
/// order of `ids`.
pub fn operation_requests(op: Operation, ids: &Vec<String>) -> (r: Vec<ApiRequest>)
    ensures
        r.len() == ids.len(),
        forall|i: int| 0 <= i < ids.len() ==> #[trigger] r[i]@ == operation_request(op, ids[i]@),
        forall|i: int|
            0 <= i < ids.len() ==> #[trigger] r[i].resource@ == operation_resource(op, ids[i]@),
{
    let mut r: Vec<ApiRequest> = Vec::new();
    let mut i: usize = 0;
    while i < ids.len()
        invariant
            i <= ids.len(),
            r.len() == i,
            forall|j: int| 0 <= j < i ==> #[trigger] r[j]@ == operation_request(op, ids[j]@),
            forall|j: int|
                0 <= j < i ==> #[trigger] r[j].resource@ == operation_resource(op, ids[j]@),
        decreases ids.len() - i,
    {
        r.push(request_for(op, ids[i].as_str()));
        i = i + 1;
    }
    r
}

/// The error reported when no socket is found at `path`.
pub fn socket_missing_message(path: &str) -> (r: String)
    ensures
        r@ == "docker socket not found at "@ + path@,
{
    let mut m = text("docker socket not found at ");
    m.append(path);
    m
}

/// The base URL of the versioned Engine API.
pub fn base_url() -> (r: String)
    ensures
        r@ == "http://unix/"@ + DEFAULT_DOCKER_API_VERSION@,
{
    let mut u = text("http://unix/");
    u.append(DEFAULT_DOCKER_API_VERSION);
    u
}

/// The headers a request carries: `Host: localhost`, and a JSON content type
/// when it has a body.
pub fn request_headers(has_body: bool) -> (r: Vec<(String, String)>)
    ensures
        param_views(r@) == if has_body {
            seq![("Host"@, "localhost"@), ("Content-Type"@, "application/json"@)]
        } else {
            seq![("Host"@, "localhost"@)]
        },
{
    let mut h: Vec<(String, String)> = Vec::new();
    h.push((text("Host"), text("localhost")));
    if has_body {
        h.push((text("Content-Type"), text("application/json")));
    }
    proof {
        if has_body {
            assert(param_views(h@) =~= seq![
                ("Host"@, "localhost"@),
                ("Content-Type"@, "application/json"@),
            ]);
        } else {
            assert(param_views(h@) =~= seq![("Host"@, "localhost"@)]);
        }
    }
    h
}

/// Whether a response status reports success (200 to 299).
pub fn is_success(status: u16) -> (r: bool)
    ensures
        r == (200 <= status < 300),
{
    200 <= status && status < 300
}

/// The error reported for a response that is not a success.
pub fn api_error_message(status: &str, body: &str) -> (r: String)
    ensures
        r@ == "docker API error: "@ + status@ + " - "@ + body@,
{
    let mut m = text("docker API error: ");
    m.append(status);
    m.append(" - ");
    m.append(body);
    m
}

/// The error reported when the log stream of a container cannot be had.
pub fn logs_error_message(status: &str, body: &str) -> (r: String)
    ensures
        r@ == "docker api error: "@ + status@ + " - "@ + body@,
{
    let mut m = text("docker api error: ");
    m.append(status);
    m.append(" - ");
    m.append(body);
    m
}

/// The path that lists containers: all of them, or the running ones only.
pub open spec fn list_path(all: bool) -> Seq<char> {
    full_path("/containers/json"@, Some(seq![("all"@, bool_text(all))]))
}

/// The path that asks for one usage sample of the container `id`.
pub open spec fn stats_path(id: Seq<char>) -> Seq<char> {
    full_path(container_path(id, "/stats"@), Some(seq![("stream"@, "false"@)]))
}

/// The request that lists containers: all of them, or the running ones only.
pub fn list_request(all: bool) -> (r: ApiRequest)
    ensures
        r@ == (Method::Get, list_path(all)),
        r.resource@ == "/containers/json"@,
{
    let mut ps: Vec<(String, String)> = Vec::new();
    ps.push((text("all"), bool_string(all)));
    proof {
        assert(param_views(ps@) =~= seq![("all"@, bool_text(all))]);
    }
    build_request(Method::Get, text("/containers/json"), &Some(ps))
}

/// The request for the full description of the container `id`.
pub fn inspect_request(id: &str) -> (r: ApiRequest)
    ensures
        r@ == (Method::Get, container_path(id@, "/json"@)),
        r.resource@ == container_path(id@, "/json"@),
{
    build_request(Method::Get, container_path_string(id, "/json"), &None)
}

/// The request for one sample of the resource usage of the container `id`.
pub fn stats_request(id: &str) -> (r: ApiRequest)
    ensures
        r@ == (Method::Get, stats_path(id@)),
        r.resource@ == container_path(id@, "/stats"@),
{
    let base = container_path_string(id, "/stats");
    let mut ps: Vec<(String, String)> = Vec::new();
    ps.push((text("stream"), text("false")));
    proof {
        assert(param_views(ps@) =~= seq![("stream"@, "false"@)]);
    }
    build_request(Method::Get, base, &Some(ps))
}

/// The request for the log stream of the container `id`.
pub fn logs_request(id: &str) -> (r: ApiRequest)
    ensures
        r@ == (Method::Get, container_path(id@, "/logs"@)),
        r.resource@ == container_path(id@, "/logs"@),
{
    build_request(Method::Get, container_path_string(id, "/logs"), &None)
}

/// The requests for the full descriptions of each of `ids`, one per id and
/// in the order of `ids`.
pub fn inspect_requests(ids: &Vec<String>) -> (r: Vec<ApiRequest>)
    ensures
        r.len() == ids.len(),
        forall|i: int|
            0 <= i < ids.len() ==> #[trigger] r[i]@ == (Method::Get, container_path(
                ids[i]@,
                "/json"@,
            )) && r[i].resource@ == container_path(ids[i]@, "/json"@),
{
    let mut r: Vec<ApiRequest> = Vec::new();
    let mut i: usize = 0;
    while i < ids.len()
        invariant
            i <= ids.len(),
            r.len() == i,
            forall|j: int|
                0 <= j < i ==> #[trigger] r[j]@ == (Method::Get, container_path(ids[j]@, "/json"@))
                    && r[j].resource@ == container_path(ids[j]@, "/json"@),
        decreases ids.len() - i,
    {
        r.push(inspect_request(ids[i].as_str()));
        i = i + 1;
    }
    r
}

/// The options of a log request as query parameters: `follow`, `stdout`,
/// `stderr` and `timestamps` always, then `tail`, `since` and `until` when given.
pub open spec fn logs_params(
    follow: bool,
    tail: Option<Seq<char>>,
    since: Option<Seq<char>>,
    until: Option<Seq<char>>,
    timestamps: bool,
) -> Seq<(Seq<char>, Seq<char>)> {
    seq![
        ("follow"@, bool_text(follow)),
        ("stdout"@, "true"@),
        ("stderr"@, "true"@),
        ("timestamps"@, bool_text(timestamps)),
    ] + optional_param("tail"@, tail) + optional_param("since"@, since) + optional_param(
        "until"@,
        until,
    )
}

/// A parameter that is there only when it has a value.
pub open spec fn optional_param(key: Seq<char>, value: Option<Seq<char>>) -> Seq<
    (Seq<char>, Seq<char>),
> {
    match value {
        Some(v) => seq![(key, v)],
        None => Seq::empty(),
    }
}

fn push_optional(ps: &mut Vec<(String, String)>, key: &str, value: &Option<String>)
    ensures
        param_views(final(ps)@) == param_views(old(ps)@) + optional_param(
            key@,
            match value {
                Some(v) => Some(v@),
                None => None,
            },
        ),
{
    match value {
        Some(v) => {
            ps.push((text(key), v.clone()));
            proof {
                assert(param_views(ps@) =~= param_views(old(ps)@) + seq![(key@, v@)]);
            }
        },
        None => {
            proof {
                assert(param_views(ps@) =~= param_views(old(ps)@) + Seq::<
                    (Seq<char>, Seq<char>),
                >::empty());
            }
        },
    }
}

/// The query parameters that the options of a log request stand for.
pub fn logs_query(
    follow: bool,
    tail: &Option<String>,
    since: &Option<String>,
    until: &Option<String>,
    timestamps: bool,
) -> (r: Vec<(String, String)>)
    ensures
        param_views(r@) == logs_params(
            follow,
            match tail {
                Some(v) => Some(v@),
                None => None,
            },
            match since {
                Some(v) => Some(v@),
                None => None,
            },
            match until {
                Some(v) => Some(v@),
                None => None,
            },
            timestamps,
        ),
{
    let mut ps: Vec<(String, String)> = Vec::new();
    ps.push((text("follow"), bool_string(follow)));
    ps.push((text("stdout"), text("true")));
    ps.push((text("stderr"), text("true")));
    ps.push((text("timestamps"), bool_string(timestamps)));
    proof {
        assert(param_views(ps@) =~= seq![
            ("follow"@, bool_text(follow)),
            ("stdout"@, "true"@),
            ("stderr"@, "true"@),
            ("timestamps"@, bool_text(timestamps)),
        ]);
    }
    push_optional(&mut ps, "tail", tail);
    push_optional(&mut ps, "since", since);
    push_optional(&mut ps, "until", until);
    ps
}

/// The ids of `containers`, in order.
pub fn container_ids(containers: &Vec<Container>) -> (r: Vec<String>)
    ensures
        r.len() == containers.len(),
        forall|i: int| 0 <= i < containers.len() ==> #[trigger] r[i]@ == containers[i].id@,
{
    let mut r: Vec<String> = Vec::new();
    let mut i: usize = 0;
    while i < containers.len()
        invariant
            i <= containers.len(),
            r.len() == i,
            forall|j: int| 0 <= j < i ==> #[trigger] r[j]@ == containers[j].id@,
        decreases containers.len() - i,
    {
        r.push(containers[i].id.clone());
        i = i + 1;
    }
    r
}

/// Whether sampling usage needs the list of running containers: it does when
/// no container is named.
pub fn lists_running_containers(ids: &Vec<String>) -> (r: bool)
    ensures
        r == (ids.len() == 0),
{
    ids.len() == 0
}

/// The containers whose usage is sampled: those named, or, when none is
/// named, the `running` ones, in order.
pub fn stats_targets(ids: &Vec<String>, running: &Vec<Container>) -> (r: Vec<String>)
    ensures
        ids.len() > 0 ==> r.len() == ids.len() && forall|i: int|
            0 <= i < ids.len() ==> #[trigger] r[i]@ == ids[i]@,
        ids.len() == 0 ==> r.len() == running.len() && forall|i: int|
            0 <= i < running.len() ==> #[trigger] r[i]@ == running[i].id@,
{
    if ids.len() == 0 {
        return container_ids(running);
    }
    let mut r: Vec<String> = Vec::new();
    let mut i: usize = 0;
    while i < ids.len()
        invariant
            i <= ids.len(),
            r.len() == i,
            forall|j: int| 0 <= j < i ==> #[trigger] r[j]@ == ids[j]@,
        decreases ids.len() - i,
    {
        r.push(ids[i].clone());
        i = i + 1;
    }
    r
}

/// How a list of containers is shown.
#[derive(Debug, Clone, Copy, PartialEq, Eq, Structural)]
pub enum ListOutput {
    /// The ids, as a JSON array.
    JsonIds,
    /// The containers, as a JSON array.
    JsonContainers,
    /// A table, or the short ids one per line when `quiet`.
    Table { quiet: bool },
}

/// How to show a list of containers: as JSON when the format is `json`,
/// else as a table; `quiet` keeps to the ids.
pub fn list_output(format: &str, quiet: bool) -> (r: ListOutput)
    ensures
        r == if format@ == "json"@ {
            if quiet {
                ListOutput::JsonIds
            } else {
                ListOutput::JsonContainers
            }
        } else {
            ListOutput::Table { quiet }
        },
{
    if crate::text::same_text(format, "json") {
        if quiet {
            ListOutput::JsonIds
        } else {
            ListOutput::JsonContainers
        }
    } else {
        ListOutput::Table { quiet }
    }
}

/// How the outcome of `op` is told: the word after the container in a
/// success, and the one after "failed to" in a failure.
pub open spec fn outcome_words(op: Operation) -> (Seq<char>, Seq<char>) {
    match op {
        Operation::Start => ("started"@, "start"@),
        Operation::Stop { .. } => ("stopped"@, "stopped"@),
        Operation::Restart { .. } => ("restarted"@, "restarted"@),
        Operation::Remove { .. } => ("removed"@, "removed"@),
    }
}

fn outcome_strings(op: Operation) -> (r: (&'static str, &'static str))
    ensures
        (r.0@, r.1@) == outcome_words(op),
{
    match op {
        Operation::Start => ("started", "start"),
        Operation::Stop { .. } => ("stopped", "stopped"),
        Operation::Restart { .. } => ("restarted", "restarted"),
        Operation::Remove { .. } => ("removed", "removed"),
    }
}

/// The line reported when `op` succeeded on the container `id`.
pub fn success_message(op: Operation, id: &str) -> (r: String)
    ensures
        r@ == "container '"@ + id@ + "' "@ + outcome_words(op).0 + " successfully"@,
{
    let words = outcome_strings(op);
    let mut m = text("container '");
    m.append(id);
    m.append("' ");
    m.append(words.0);
    m.append(" successfully");
    m
}

/// The line reported when `op` failed on the container `id` with `error`.
pub fn failure_message(op: Operation, id: &str, error: &str) -> (r: String)
    ensures
        r@ == "failed to "@ + outcome_words(op).1 + " container '"@ + id@ + "': "@ + error@,
{
    let words = outcome_strings(op);
    let mut m = text("failed to ");
    m.append(words.1);
    m.append(" container '");
    m.append(id);
    m.append("': ");
    m.append(error);
    m
}

/// The line reported when the container `id` could not be inspected.
pub fn inspect_failure_message(id: &str, error: &str) -> (r: String)
    ensures
        r@ == "error: failed to inspect container '"@ + id@ + "': "@ + error@,
{
    let mut m = text("error: failed to inspect container '");
    m.append(id);
    m.append("': ");
    m.append(error);
    m
}

/// The line reported when no usage sample came for the container `id`.
pub fn stats_failure_message(id: &str, error: &str) -> (r: String)
    ensures
        r@ == "failed to get stats for container '"@ + id@ + "': "@ + error@,
{
    let mut m = text("failed to get stats for container '");
    m.append(id);
    m.append("': ");
    m.append(error);
    m
}

/// A decimal numeral is plain text: percent-encoding leaves it as it is.
pub proof fn lemma_decimal_plain(n: nat)
    ensures
        is_plain(decimal(n)),
    decreases n,
{
    if n >= 10 {
        lemma_decimal_plain(n / 10);
        let d = decimal(n / 10);
        let s = decimal(n);
        assert(s == d.push(crate::text::digit_char((n % 10) as int)));
        assert forall|i: int| 0 <= i < s.len() implies is_plain_char(#[trigger] s[i]) by {
            if i < d.len() {
                assert(s[i] == d[i]);
            }
        }
    }
}

proof fn lemma_literals_plain()
    ensures
        is_plain("true"@),
        is_plain("false"@),
        is_plain("force"@),
        is_plain("v"@),
        is_plain("t"@),
        is_plain("all"@),
        is_plain("stream"@),
{
    reveal_strlit("true");
    reveal_strlit("false");
    reveal_strlit("force");
    reveal_strlit("v");
    reveal_strlit("t");
    reveal_strlit("all");
    reveal_strlit("stream");
}

/// Starting a container posts to `/containers/<id>/start`, with no query.
pub proof fn lemma_start_request(id: Seq<char>)
    ensures
        operation_request(Operation::Start, id) == (Method::Post, "/containers/"@ + id + "/start"@),
{
}

/// Stopping a container posts to `/containers/<id>/stop`; a timeout given is
/// sent, in decimal seconds, as `t`, and none is sent otherwise.
pub proof fn lemma_stop_request(id: Seq<char>, timeout: Option<u64>)
    ensures
        operation_request(Operation::Stop { timeout }, id) == (Method::Post, match timeout {
            Some(t) => "/containers/"@ + id + "/stop?t="@ + decimal(t as nat),
            None => "/containers/"@ + id + "/stop"@,
        }),
{
    if let Some(t) = timeout {
        lemma_literals_plain();
        lemma_decimal_plain(t as nat);
        lemma_one_plain_param("t"@, decimal(t as nat));
        reveal_strlit("t");
        reveal_strlit("/stop");
        reveal_strlit("/stop?t=");
        assert("/containers/"@ + id + "/stop"@ + (seq!['?'] + "t"@ + seq!['='] + decimal(t as nat))
            =~= "/containers/"@ + id + "/stop?t="@ + decimal(t as nat));
    }
}

/// Restarting a container posts to `/containers/<id>/restart`; a timeout
/// given is sent, in decimal seconds, as `t`, and none is sent otherwise.
pub proof fn lemma_restart_request(id: Seq<char>, timeout: Option<u64>)
    ensures
        operation_request(Operation::Restart { timeout }, id) == (Method::Post, match timeout {
            Some(t) => "/containers/"@ + id + "/restart?t="@ + decimal(t as nat),
            None => "/containers/"@ + id + "/restart"@,
        }),
{
    if let Some(t) = timeout {
        lemma_literals_plain();
        lemma_decimal_plain(t as nat);
        lemma_one_plain_param("t"@, decimal(t as nat));
        reveal_strlit("t");
        reveal_strlit("/restart");
        reveal_strlit("/restart?t=");
        assert("/containers/"@ + id + "/restart"@ + (seq!['?'] + "t"@ + seq!['='] + decimal(
            t as nat,
        )) =~= "/containers/"@ + id + "/restart?t="@ + decimal(t as nat));
    }
}

/// Removing a container deletes `/containers/<id>`, with `force` set as
/// asked and `v` (remove its volumes) set as asked, each on its own.
pub proof fn lemma_remove_request(id: Seq<char>, force: bool, volumes: bool)
    ensures
        operation_request(Operation::Remove { force, volumes }, id) == (
            Method::Delete,
            "/containers/"@ + id + "?force="@ + (if force {
                "true"@
            } else {
                "false"@
            }) + "&v="@ + (if volumes {
                "true"@
            } else {
                "false"@
            }),
        ),
{
    lemma_literals_plain();
    let f = bool_text(force);
    let v = bool_text(volumes);
    lemma_two_plain_params("force"@, f, "v"@, v);
    reveal_strlit("force");
    reveal_strlit("v");
    reveal_strlit("?force=");
    reveal_strlit("&v=");
    assert(container_path(id, Seq::empty()) =~= "/containers/"@ + id);
    assert("/containers/"@ + id + (seq!['?'] + "force"@ + seq!['='] + f + seq!['&'] + "v"@
        + seq!['='] + v) =~= "/containers/"@ + id + "?force="@ + f + "&v="@ + v);
}

/// Listing asks `/containers/json` for all containers or the running ones, as `all` says.
pub proof fn lemma_list_request(all: bool)
    ensures
        list_path(all) == "/containers/json?all="@
            + (if all {
            "true"@
        } else {
            "false"@
        }),
{
    lemma_literals_plain();
    lemma_one_plain_param("all"@, bool_text(all));
    reveal_strlit("all");
    reveal_strlit("/containers/json");
    reveal_strlit("/containers/json?all=");
    assert("/containers/json"@ + (seq!['?'] + "all"@ + seq!['='] + bool_text(all))
        =~= "/containers/json?all="@ + bool_text(all));
}

/// A usage sample is asked for once, not as a stream.
pub proof fn lemma_stats_request(id: Seq<char>)
    ensures
        stats_path(id) == "/containers/"@
            + id + "/stats?stream=false"@,
{
    lemma_literals_plain();
    lemma_one_plain_param("stream"@, "false"@);
    reveal_strlit("stream");
    reveal_strlit("false");
    reveal_strlit("/stats");
    reveal_strlit("/stats?stream=false");
    assert("/containers/"@ + id + "/stats"@ + (seq!['?'] + "stream"@ + seq!['='] + "false"@)
        =~= "/containers/"@ + id + "/stats?stream=false"@);
}

/// The options of a log request: `follow` and `timestamps` as asked, both
/// output streams always, and each of `tail`, `since`, `until` once, after
/// them and in that order, exactly when given.
pub proof fn lemma_logs_params(
    follow: bool,
    tail: Option<Seq<char>>,
    since: Option<Seq<char>>,
    until: Option<Seq<char>>,
    timestamps: bool,
)
    ensures
        ({
            let ps = logs_params(follow, tail, since, until, timestamps);
            let extra = seq![("tail"@, tail), ("since"@, since), ("until"@, until)].filter(
                |p: (Seq<char>, Option<Seq<char>>)| p.1 is Some,
            );
            &&& ps.len() == 4 + extra.len()
            &&& ps[0] == ("follow"@, if follow {
                "true"@
            } else {
                "false"@
            })
            &&& ps[1] == ("stdout"@, "true"@)
            &&& ps[2] == ("stderr"@, "true"@)
            &&& ps[3] == ("timestamps"@, if timestamps {
                "true"@
            } else {
                "false"@
            })
            &&& forall|i: int| 0 <= i < extra.len() ==> #[trigger] ps[4 + i] == (extra[i].0, extra[i].1->0)
        }),
{
    reveal_with_fuel(Seq::<(Seq<char>, Option<Seq<char>>)>::filter, 4);
    let t = optional_param("tail"@, tail);
    let s = optional_param("since"@, since);
    let u = optional_param("until"@, until);
    let items = seq![("tail"@, tail), ("since"@, since), ("until"@, until)];
    let pred = |p: (Seq<char>, Option<Seq<char>>)| p.1 is Some;
    assert(items.drop_last() =~= seq![("tail"@, tail), ("since"@, since)]);
    assert(items.drop_last().drop_last() =~= seq![("tail"@, tail)]);
    assert(items.drop_last().drop_last().drop_last() =~= Seq::<(Seq<char>, Option<Seq<char>>)>::empty());
    let ex = items.filter(pred);
    let ps = logs_params(follow, tail, since, until, timestamps);
    let base = seq![
        ("follow"@, bool_text(follow)),
        ("stdout"@, "true"@),
        ("stderr"@, "true"@),
        ("timestamps"@, bool_text(timestamps)),
    ];
    assert(ps == base + t + s + u);
    assert(ps.skip(4) =~= t + s + u);
    assert(ex =~= (t + s + u).map_values(|p: (Seq<char>, Seq<char>)| (p.0, Some(p.1)))) by {
        assert(items.drop_last().drop_last().filter(pred) =~= t.map_values(
            |p: (Seq<char>, Seq<char>)| (p.0, Some(p.1)),
        ));
        assert(items.drop_last().filter(pred) =~= (t + s).map_values(
            |p: (Seq<char>, Seq<char>)| (p.0, Some(p.1)),
        ));
    }
    assert forall|i: int| 0 <= i < ex.len() implies #[trigger] ps[4 + i] == (ex[i].0, ex[i].1->0) by {
        assert(ps[4 + i] == ps.skip(4)[i]);
    }
}

} // verus!
