//! Sub-server aggregation: the routing of exposed tool names to the
//! sub-servers that provide them, and the re-numbering of request IDs on the
//! way to a sub-server and back.
use vstd::prelude::*;
use std::collections::HashMap;
use crate::json::{JsonModel, JsonValue, member, members_model, object};
use crate::protocol::{
    IdModel, JsonRpcError, JsonRpcRequest, JsonRpcResponse, RequestId, RequestModel, ResponseModel, ToolDefinition,
    id_model, tool_definition_view,
};
use crate::text::{concat3, owned, parse_u64, parse_u64_spec, str_eq};
use crate::tools::is_builtin_name;

verus! {

broadcast use vstd::std_specs::hash::group_hash_axioms;

// ---------------------------------------------------------------------------
// Configuration
// ---------------------------------------------------------------------------

/// How to start one sub-server.
#[derive(Debug, Clone)]
pub struct SubServerConfig {
    pub name: String,
    pub command: String,
    pub args: Vec<String>,
    /// `"2026-07-28"` or `"legacy"`.
    pub protocol_version: String,
    pub env: Option<HashMap<String, String>>,
}

#[derive(Debug, Clone)]
pub struct HubConfig {
    pub sub_servers: Vec<SubServerConfig>,
}

impl SubServerConfig {
    /// A legacy server must be initialized with a handshake before use.
    pub fn needs_handshake(&self) -> (r: bool)
        ensures
            r == (self.protocol_version@ == "legacy"@),
    {
        self.protocol_version == owned("legacy")
    }
}

/// The `initialize` request of the handshake with a legacy server.
pub open spec fn handshake_request_model() -> RequestModel {
    RequestModel {
        jsonrpc: "2.0"@,
        id: Some(IdModel::Number(0)),
        method: "initialize"@,
        params: Some(JsonModel::Object(seq![
            ("protocolVersion"@, JsonModel::String("2024-11-05"@)),
            ("capabilities"@, JsonModel::Object(seq![])),
            ("clientInfo"@, JsonModel::Object(seq![
                ("name"@, JsonModel::String("paramcp-hub"@)),
                ("version"@, JsonModel::String("0.1.0"@)),
            ])),
        ])),
    }
}

pub fn handshake_request() -> (r: JsonRpcRequest)
    ensures
        r@ == handshake_request_model(),
{
    let ces = vec![member("name", JsonValue::string("paramcp-hub")), member("version", JsonValue::string("0.1.0"))];
    let client = object(ces);
    let es = vec![
        member("protocolVersion", JsonValue::string("2024-11-05")),
        member("capabilities", JsonValue::empty_object()),
        member("clientInfo", client),
    ];
    let params = object(es);
    proof {
        assert(members_model(ces@) =~= seq![
            ("name"@, JsonModel::String("paramcp-hub"@)),
            ("version"@, JsonModel::String("0.1.0"@)),
        ]);
        assert(members_model(es@) =~= handshake_request_model().params->0->Object_0);
    }
    JsonRpcRequest {
        jsonrpc: owned("2.0"),
        id: Some(RequestId::Number(0)),
        method: owned("initialize"),
        params: Some(params),
    }
}

/// What makes the handshake with a legacy server fail: the error in its
/// reply to `initialize`, if the reply holds one; a reply without an error
/// lets the handshake go on.
pub fn handshake_error(reply: &JsonRpcResponse) -> (r: Option<&JsonRpcError>)
    ensures
        match reply.error {
            Some(e) => r matches Some(x) && *x == e,
            None => r is None,
        },
{
    match &reply.error {
        Some(e) => Some(e),
        None => None,
    }
}

/// The notification that ends the handshake.
pub fn initialized_notification() -> (r: JsonRpcRequest)
    ensures
        r@ == (RequestModel { jsonrpc: "2.0"@, id: None, method: "notifications/initialized"@, params: None }),
{
    JsonRpcRequest { jsonrpc: owned("2.0"), id: None, method: owned("notifications/initialized"), params: None }
}

/// What the handshake with a legacy server does once the server has
/// answered `initialize`.
#[derive(Debug)]
pub enum HandshakeStep<'a> {
    /// The handshake fails with the error of the reply.
    Fail(&'a JsonRpcError),
    /// Send this notification; then the server is ready.
    Notify(JsonRpcRequest),
}

/// The step after the reply to `initialize`: an error in the reply fails
/// the handshake; otherwise the `notifications/initialized` notification
/// follows.
pub fn after_initialize(reply: &JsonRpcResponse) -> (r: HandshakeStep<'_>)
    ensures
        match reply.error {
            Some(e) => r matches HandshakeStep::Fail(x) && *x == e,
            None => r matches HandshakeStep::Notify(n)
                && n@ == (RequestModel { jsonrpc: "2.0"@, id: None, method: "notifications/initialized"@, params: None }),
        },
{
    match handshake_error(reply) {
        Some(e) => HandshakeStep::Fail(e),
        None => HandshakeStep::Notify(initialized_notification()),
    }
}


/// The request that asks a sub-server for its tools.
pub fn tools_list_request() -> (r: JsonRpcRequest)
    ensures
        r@ == (RequestModel { jsonrpc: "2.0"@, id: Some(IdModel::Number(1)), method: "tools/list"@, params: None }),
{
    JsonRpcRequest {
        jsonrpc: owned("2.0"),
        id: Some(RequestId::Number(1)),
        method: owned("tools/list"),
        params: None,
    }
}

// ---------------------------------------------------------------------------
// Request numbering
// ---------------------------------------------------------------------------

/// The number a sub-server's reply is filed under: a numeric ID as an
/// unsigned number, a string ID by its decimal value (0 when it has none).
pub open spec fn reply_key(id: IdModel) -> u64 {
    match id {
        IdModel::Number(n) => n as u64,
        IdModel::String(s) => match parse_u64_spec(s) {
            Some(v) => v,
            None => 0,
        },
    }
}

pub open spec fn wrapping_next(n: u64) -> u64 {
    if n == u64::MAX { 0 } else { (n + 1) as u64 }
}

/// What to write to a sub-server for a request.
#[derive(Debug)]
pub enum Outgoing<T> {
    /// A notification: write it, and answer `reply` at once with an empty
    /// response.
    Notification(JsonRpcRequest, T),
    /// A request re-numbered for the sub-server; its reply is pending.
    Request(JsonRpcRequest),
}

/// What became of a reply read from a sub-server.
#[derive(Debug)]
pub enum Incoming<T> {
    /// The reply, with the caller's own ID restored, and where it goes.
    Delivered(JsonRpcResponse, T),
    /// A reply without an ID.
    Ignored,
    /// A reply whose number no pending request carries.
    Untracked(JsonRpcResponse),
}

/// The requests sent to one sub-server that await a reply, each filed under
/// the number it was sent with, beside the caller's own ID and the place the
/// reply goes.
pub struct PendingRequests<T> {
    next_id: u64,
    pending: HashMap<u64, (Option<RequestId>, T)>,
    sent: Ghost<Seq<u64>>,
}

impl<T> PendingRequests<T> {
    /// The number the next request will be sent with.
    pub closed spec fn next(self) -> u64 {
        self.next_id
    }

    /// The pending requests: number to (caller's ID, where the reply goes).
    pub closed spec fn pending(self) -> Map<u64, (Option<IdModel>, T)> {
        Map::new(
            |k: u64| self.pending@.contains_key(k),
            |k: u64| (id_model(self.pending@[k].0), self.pending@[k].1),
        )
    }

    /// The numbers that requests were sent with so far, in sending order.
    pub closed spec fn issued(self) -> Seq<u64> {
        self.sent@
    }

    /// The numbers sent so far are 1, 2, 3, ... in sending order, and the
    /// next one follows the last.
    pub open spec fn numbered_in_order(self) -> bool {
        &&& self.next() == self.issued().len() + 1
        &&& forall|i: int| 0 <= i < self.issued().len() ==> #[trigger] self.issued()[i] == i + 1
    }

    /// Every pending number is below the next one: the next number is free.
    pub open spec fn fresh(self) -> bool {
        forall|k: u64| #[trigger] self.pending().contains_key(k) ==> k < self.next()
    }

    pub fn new() -> (r: Self)
        ensures
            r.next() == 1,
            r.pending() == Map::<u64, (Option<IdModel>, T)>::empty(),
            r.fresh(),
            r.issued() == Seq::<u64>::empty(),
            r.numbered_in_order(),
    {
        let r = PendingRequests { next_id: 1, pending: HashMap::new(), sent: Ghost(Seq::empty()) };
        assert(r.pending() =~= Map::<u64, (Option<IdModel>, T)>::empty());
        r
    }

    /// Files a request to be sent: a notification goes out unchanged; a
    /// request goes out under the next number, its own ID kept aside.
    pub fn dispatch(&mut self, req: JsonRpcRequest, reply: T) -> (r: Outgoing<T>)
        ensures
            match req.id {
                None => r matches Outgoing::Notification(n, t) && n@ == req@ && t == reply
                    && final(self).next() == old(self).next()
                    && final(self).pending() == old(self).pending()
                    && final(self).issued() == old(self).issued(),
                Some(orig) => r matches Outgoing::Request(out)
                    && out@ == (RequestModel { id: Some(IdModel::Number(old(self).next() as i64)), ..req@ })
                    && final(self).next() == wrapping_next(old(self).next())
                    && final(self).pending() == old(self).pending().insert(old(self).next(), (Some(orig@), reply))
                    && final(self).issued() == old(self).issued().push(old(self).next()),
            },
            old(self).numbered_in_order() && old(self).next() < u64::MAX ==> final(self).numbered_in_order(),
            old(self).fresh() && old(self).next() < u64::MAX ==> final(self).fresh(),
            old(self).fresh() ==> !old(self).pending().contains_key(old(self).next()),
    {
        let mut req = req;
        if req.id.is_none() {
            return Outgoing::Notification(req, reply);
        }
        let internal = self.next_id;
        self.next_id = self.next_id.wrapping_add(1);
        let orig = req.id.take();
        let ghost before = old(self).pending();
        self.sent = Ghost(self.sent@.push(internal));
        self.pending.insert(internal, (orig, reply));
        req.id = Some(RequestId::Number(#[verifier::truncate] (internal as i64)));
        proof {
            assert(self.pending() =~= before.insert(internal, (id_model(orig), reply)));
        }
        Outgoing::Request(req)
    }

    /// Matches a reply to the request it answers and restores the caller's
    /// ID; the request is no longer pending.
    pub fn resolve(&mut self, resp: JsonRpcResponse) -> (r: Incoming<T>)
        ensures
            final(self).next() == old(self).next(),
            final(self).issued() == old(self).issued(),
            old(self).fresh() ==> final(self).fresh(),
            match id_model(resp.id) {
                None => r is Ignored && final(self).pending() == old(self).pending(),
                Some(i) => if old(self).pending().contains_key(reply_key(i)) {
                    r matches Incoming::Delivered(out, t)
                        && out@ == (ResponseModel { id: old(self).pending()[reply_key(i)].0, ..resp@ })
                        && t == old(self).pending()[reply_key(i)].1
                        && final(self).pending() == old(self).pending().remove(reply_key(i))
                } else {
                    r matches Incoming::Untracked(out) && out@ == resp@
                        && final(self).pending() == old(self).pending()
                },
            },
    {
        let mut resp = resp;
        let key = match &resp.id {
            None => return Incoming::Ignored,
            Some(RequestId::Number(n)) => #[verifier::truncate] (*n as u64),
            Some(RequestId::String(s)) => match parse_u64(s.as_str()) {
                Some(v) => v,
                None => 0,
            },
        };
        let ghost before = old(self).pending();
        match self.pending.remove(&key) {
            Some((orig, t)) => {
                proof {
                    assert(self.pending() =~= before.remove(key));
                }
                resp.id = orig;
                Incoming::Delivered(resp, t)
            },
            None => {
                proof {
                    assert(self.pending() =~= before);
                }
                Incoming::Untracked(resp)
            },
        }
    }
}

/// The empty response that answers a notification sent to a sub-server.
pub fn notification_ack() -> (r: JsonRpcResponse)
    ensures
        r@ == (ResponseModel { jsonrpc: "2.0"@, id: None, result: None, error: None }),
{
    JsonRpcResponse { jsonrpc: owned("2.0"), id: None, result: None, error: None }
}

/// Over the whole history of a `PendingRequests` numbered in order (as
/// `new` leaves it and `dispatch` keeps it below `u64::MAX`), the numbers
/// sent are 1, 2, 3, ... in sending order: every request was sent with a
/// larger number than all requests before it, no two share a number, and the
/// next request gets a number larger than all of them.
pub proof fn lemma_sent_numbers_increase<T>(p: PendingRequests<T>)
    requires
        p.numbered_in_order(),
    ensures
        forall|i: int, j: int| 0 <= i < j < p.issued().len() ==> p.issued()[i] < p.issued()[j],
        forall|i: int| 0 <= i < p.issued().len() ==> p.issued()[i] < p.next(),
{
    assert forall|i: int, j: int| 0 <= i < j < p.issued().len() implies p.issued()[i] < p.issued()[j] by {
        assert(p.issued()[i] == i + 1);
        assert(p.issued()[j] == j + 1);
    }
    assert forall|i: int| 0 <= i < p.issued().len() implies p.issued()[i] < p.next() by {
        assert(p.issued()[i] == i + 1);
    }
}

/// Where the counter of `PendingRequests` stands after `i` requests from
/// `n`: each request (not a notification) moves it by `wrapping_next`.
pub open spec fn counter_after(n: u64, i: nat) -> u64
    decreases i,
{
    if i == 0 {
        n
    } else {
        wrapping_next(counter_after(n, (i - 1) as nat))
    }
}

proof fn lemma_counter_after(n: u64, i: nat)
    requires
        n + i <= u64::MAX,
    ensures
        counter_after(n, i) == n + i,
    decreases i,
{
    if i > 0 {
        lemma_counter_after(n, (i - 1) as nat);
    }
}

/// Requests sent to one sub-server carry increasing numbers: with the
/// counter at `n`, the request sent after `i` others carries `n + i`, so a
/// later request carries a larger number than any earlier one, as long as
/// the counter has not passed `u64::MAX` (there it wraps to 0).
pub proof fn lemma_forwarded_ids_increase(n: u64, i: nat, j: nat)
    requires
        i < j,
        n + j <= u64::MAX,
    ensures
        counter_after(n, i) == n + i,
        counter_after(n, j) == n + j,
        counter_after(n, i) < counter_after(n, j),
{
    lemma_counter_after(n, i);
    lemma_counter_after(n, j);
}

/// A reply to a request sent under number `k` is filed under `k` again, so it
/// finds the entry that carries the caller's own ID.
pub proof fn lemma_reply_finds_its_request<T>(pending: Map<u64, (Option<IdModel>, T)>, k: u64, orig: IdModel, reply: T)
    ensures
        reply_key(IdModel::Number(k as i64)) == k,
        pending.insert(k, (Some(orig), reply)).contains_key(reply_key(IdModel::Number(k as i64))),
        pending.insert(k, (Some(orig), reply))[reply_key(IdModel::Number(k as i64))] == (Some(orig), reply),
{
    assert(((k as i64) as u64) == k) by (bit_vector);
}


// ---------------------------------------------------------------------------
// Tool routing
// ---------------------------------------------------------------------------

/// A tool definition as (name, description, input schema).
pub type ToolView = (Seq<char>, Option<Seq<char>>, JsonModel);

/// A route: exposed tool name, sub-server, the sub-server's own tool name.
pub type Route = (Seq<char>, Seq<char>, Seq<char>);

/// The routing table and the merged tool list of a hub.
pub ghost struct RoutingModel {
    pub routes: Seq<Route>,
    pub merged: Seq<ToolView>,
}

pub open spec fn has_route(routes: Seq<Route>, name: Seq<char>) -> bool {
    exists|i: int| 0 <= i < routes.len() && (#[trigger] routes[i]).0 == name
}

/// The route of an exposed name.
pub open spec fn route_of(routes: Seq<Route>, name: Seq<char>) -> Option<(Seq<char>, Seq<char>)> {
    if has_route(routes, name) {
        let i = choose|i: int| 0 <= i < routes.len() && (#[trigger] routes[i]).0 == name;
        Some((routes[i].1, routes[i].2))
    } else {
        None
    }
}

/// Routes `exposed` to `(server, original)`, replacing an earlier route of
/// the same name in place.
pub open spec fn set_route(routes: Seq<Route>, exposed: Seq<char>, server: Seq<char>, original: Seq<char>) -> Seq<Route> {
    if has_route(routes, exposed) {
        let i = choose|i: int| 0 <= i < routes.len() && (#[trigger] routes[i]).0 == exposed;
        routes.update(i, (exposed, server, original))
    } else {
        routes.push((exposed, server, original))
    }
}

/// The name a sub-server's tool is exposed under: its own, unless that is
/// taken by a built-in tool or an earlier route; then `server__tool`.
pub open spec fn exposed_name(routes: Seq<Route>, server: Seq<char>, original: Seq<char>) -> Seq<char> {
    if has_route(routes, original) || is_builtin_name(original) {
        server + "__"@ + original
    } else {
        original
    }
}

/// Adds one tool of a sub-server.
pub open spec fn merge_one(m: RoutingModel, server: Seq<char>, def: ToolView) -> RoutingModel {
    let exposed = exposed_name(m.routes, server, def.0);
    RoutingModel {
        routes: set_route(m.routes, exposed, server, def.0),
        merged: m.merged.push((exposed, def.1, def.2)),
    }
}

/// The items of the `tools` array of a successful `tools/list` reply.
pub open spec fn listing_items(resp: ResponseModel) -> Seq<JsonModel> {
    if resp.error is None && resp.result is Some {
        match resp.result->0.get("tools"@) {
            Some(JsonModel::Array(items)) => items,
            _ => seq![],
        }
    } else {
        seq![]
    }
}

/// Adds, in order, the items from position `i` on that decode as tool
/// definitions; the others are skipped.
pub open spec fn merge_items(m: RoutingModel, server: Seq<char>, items: Seq<JsonModel>, i: int) -> RoutingModel
    decreases items.len() - i,
{
    if i < 0 || i >= items.len() {
        m
    } else {
        let next = match ToolDefinition::decode_spec(items[i]) {
            Ok(d) => merge_one(m, server, d),
            Err(_) => m,
        };
        merge_items(next, server, items, i + 1)
    }
}

/// Route names are unique, and each exposed name is either the tool's own
/// name (never a built-in one) or `server__tool`.
pub open spec fn routes_wf(routes: Seq<Route>) -> bool {
    &&& forall|i: int, j: int| 0 <= i < j < routes.len() ==> routes[i].0 != routes[j].0
    &&& forall|i: int| 0 <= i < routes.len() ==> route_named_well(#[trigger] routes[i])
}

pub open spec fn route_named_well(r: Route) -> bool {
    ||| r.0 == r.2 && !is_builtin_name(r.2)
    ||| r.0 == r.1 + "__"@ + r.2
}

/// Each merged tool is reachable through a route of its exposed name.
pub open spec fn routing_wf(m: RoutingModel) -> bool {
    &&& routes_wf(m.routes)
    &&& forall|i: int| 0 <= i < m.merged.len() ==> has_route(m.routes, (#[trigger] m.merged[i]).0)
}

/// Every route leads to a sub-server that satisfies `p`.
pub open spec fn routes_within(routes: Seq<Route>, p: spec_fn(Seq<char>) -> bool) -> bool {
    forall|k: int| 0 <= k < routes.len() ==> p(#[trigger] routes[k].1)
}

proof fn lemma_set_route_within(routes: Seq<Route>, exposed: Seq<char>, server: Seq<char>, original: Seq<char>, p: spec_fn(Seq<char>) -> bool)
    requires
        routes_within(routes, p),
        p(server),
    ensures
        routes_within(set_route(routes, exposed, server, original), p),
{
    let after = set_route(routes, exposed, server, original);
    if has_route(routes, exposed) {
        assert forall|k: int| 0 <= k < after.len() implies p(#[trigger] after[k].1) by {
            assert(p(routes[k].1));
        }
    } else {
        assert(after == routes.push((exposed, server, original)));
        assert forall|k: int| 0 <= k < after.len() implies p(#[trigger] after[k].1) by {
            if k < routes.len() {
                assert(after[k] == routes[k]);
                assert(p(routes[k].1));
            }
        }
    }
}

proof fn lemma_merge_items_within(m: RoutingModel, server: Seq<char>, items: Seq<JsonModel>, i: int, p: spec_fn(Seq<char>) -> bool)
    requires
        routes_within(m.routes, p),
        p(server),
    ensures
        routes_within(merge_items(m, server, items, i).routes, p),
    decreases items.len() - i,
{
    if 0 <= i < items.len() {
        match ToolDefinition::decode_spec(items[i]) {
            Ok(d) => {
                let exposed = exposed_name(m.routes, server, d.0);
                lemma_set_route_within(m.routes, exposed, server, d.0, p);
                lemma_merge_items_within(merge_one(m, server, d), server, items, i + 1, p);
            },
            Err(_) => {
                lemma_merge_items_within(m, server, items, i + 1, p);
            },
        }
    }
}

/// A started sub-server as the routing sees it: its name, and its reply to
/// `tools/list` when the call reached it.
pub open spec fn started_model<H>(s: (String, H, Result<JsonRpcResponse, String>)) -> (Seq<char>, Option<ResponseModel>) {
    (s.0@, match s.2 { Ok(r) => Some(r@), Err(_) => None })
}

/// The routing after adding started sub-servers in order, each with the
/// tools it listed.
pub open spec fn routing_after(m: RoutingModel, servers: Seq<(Seq<char>, Option<ResponseModel>)>) -> RoutingModel
    decreases servers.len(),
{
    if servers.len() == 0 {
        m
    } else {
        let next = match servers[0].1 {
            Some(r) => merge_items(m, servers[0].0, listing_items(r), 0),
            None => m,
        };
        routing_after(next, servers.drop_first())
    }
}

/// Sub-server hosts and the routing of their tools.
pub struct HubManager<H> {
    hosts: Vec<(String, H)>,
    tool_routing: Vec<(String, (String, String))>,
    merged_tools: Vec<ToolDefinition>,
}

impl<H> HubManager<H> {
    pub closed spec fn routing(self) -> RoutingModel {
        RoutingModel {
            routes: Seq::new(
                self.tool_routing@.len(),
                |i: int| (self.tool_routing@[i].0@, self.tool_routing@[i].1.0@, self.tool_routing@[i].1.1@),
            ),
            merged: Seq::new(self.merged_tools@.len(), |i: int| tool_definition_view(self.merged_tools@[i])),
        }
    }

    /// The host started under `name`.
    pub closed spec fn host(self, name: Seq<char>) -> Option<H> {
        if exists|i: int| 0 <= i < self.hosts@.len() && self.hosts@[i].0@ == name {
            let i = choose|i: int| 0 <= i < self.hosts@.len() && self.hosts@[i].0@ == name;
            Some(self.hosts@[i].1)
        } else {
            None
        }
    }

    /// Every route leads to a sub-server whose host was added.
    pub open spec fn routes_hosted(self) -> bool {
        routes_within(self.routing().routes, |s: Seq<char>| self.host(s) is Some)
    }

    pub closed spec fn wf(self) -> bool {
        &&& routing_wf(self.routing())
        &&& forall|i: int, j: int|
            0 <= i < j < self.hosts@.len() ==> self.hosts@[i].0@ != self.hosts@[j].0@
    }

    /// The routing of a well-formed hub is well formed.
    pub proof fn lemma_routing_wf(self)
        requires
            self.wf(),
        ensures
            routing_wf(self.routing()),
    {
    }

    /// A hub without sub-servers.
    pub fn empty() -> (r: Self)
        ensures
            r.wf(),
            r.routing() == (RoutingModel { routes: seq![], merged: seq![] }),
            forall|n: Seq<char>| r.host(n) is None,
            r.routes_hosted(),
    {
        let r = HubManager { hosts: Vec::new(), tool_routing: Vec::new(), merged_tools: Vec::new() };
        assert(r.routing().routes =~= Seq::<Route>::empty());
        assert(r.routing().merged =~= Seq::<ToolView>::empty());
        r
    }

    /// The merged tool definitions of all sub-servers, in the order they
    /// were added.
    pub fn get_merged_tools(&self) -> (r: &[ToolDefinition])
        ensures
            r@.len() == self.routing().merged.len(),
            forall|i: int| 0 <= i < r@.len() ==> tool_definition_view(#[trigger] r@[i]) == self.routing().merged[i],
    {
        self.merged_tools.as_slice()
    }

    /// The sub-server and original name of an exposed tool name.
    pub fn get_routing(&self, tool_name: &str) -> (r: Option<&(String, String)>)
        requires
            self.wf(),
        ensures
            match r {
                Some(p) => route_of(self.routing().routes, tool_name@) == Some((p.0@, p.1@)),
                None => route_of(self.routing().routes, tool_name@) is None,
            },
    {
        let key = owned(tool_name);
        let ghost routes = self.routing().routes;
        let mut i: usize = 0;
        while i < self.tool_routing.len()
            invariant
                routes == self.routing().routes,
                routes_wf(routes),
                key@ == tool_name@,
                i <= self.tool_routing@.len(),
                forall|k: int| 0 <= k < i ==> routes[k].0 != tool_name@,
            decreases self.tool_routing@.len() - i,
        {
            assert(routes[i as int].0 == self.tool_routing@[i as int].0@);
            if self.tool_routing[i].0 == key {
                proof {
                    let k = choose|k: int| 0 <= k < routes.len() && (#[trigger] routes[k]).0 == tool_name@;
                    assert(k == i as int);
                }
                return Some(&self.tool_routing[i].1);
            }
            i = i + 1;
        }
        None
    }

    /// The host started under `name`.
    pub fn get_host(&self, name: &str) -> (r: Option<&H>)
        requires
            self.wf(),
        ensures
            match r {
                Some(h) => self.host(name@) == Some(*h),
                None => self.host(name@) is None,
            },
    {
        let key = owned(name);
        let mut i: usize = 0;
        while i < self.hosts.len()
            invariant
                self.wf(),
                key@ == name@,
                i <= self.hosts@.len(),
                forall|k: int| 0 <= k < i ==> self.hosts@[k].0@ != name@,
            decreases self.hosts@.len() - i,
        {
            if self.hosts[i].0 == key {
                proof {
                    let k = choose|k: int| 0 <= k < self.hosts@.len() && self.hosts@[k].0@ == name@;
                    assert(k == i as int);
                }
                return Some(&self.hosts[i].1);
            }
            i = i + 1;
        }
        None
    }

    /// Adds the host of a sub-server, replacing a host of the same name.
    pub fn add_host(&mut self, name: String, host: H)
        requires
            old(self).wf(),
        ensures
            final(self).wf(),
            final(self).routing() == old(self).routing(),
            final(self).host(name@) == Some(host),
            forall|n: Seq<char>| n != name@ ==> final(self).host(n) == old(self).host(n),
    {
        let mut i: usize = 0;
        while i < self.hosts.len()
            invariant
                self.wf(),
                *self == *old(self),
                i <= self.hosts@.len(),
                forall|k: int| 0 <= k < i ==> self.hosts@[k].0@ != name@,
            decreases self.hosts@.len() - i,
        {
            if self.hosts[i].0 == name {
                let ghost before = *self;
                self.hosts.set(i, (name, host));
                proof {
                    assert(self.routing() == before.routing());
                    assert(self.hosts@[i as int].0@ == name@);
                    assert forall|n: Seq<char>| n != name@ implies self.host(n) == before.host(n) by {
                        if exists|k: int| 0 <= k < self.hosts@.len() && self.hosts@[k].0@ == n {
                            let k = choose|k: int| 0 <= k < self.hosts@.len() && self.hosts@[k].0@ == n;
                            assert(before.hosts@[k].0@ == n);
                        }
                        if exists|k: int| 0 <= k < before.hosts@.len() && before.hosts@[k].0@ == n {
                            let k = choose|k: int| 0 <= k < before.hosts@.len() && before.hosts@[k].0@ == n;
                            assert(self.hosts@[k].0@ == n);
                        }
                    }
                }
                return;
            }
            i = i + 1;
        }
        let ghost before = *self;
        let ghost name_v = name@;
        self.hosts.push((name, host));
        proof {
            assert(self.routing() == before.routing());
            let last = self.hosts@.len() - 1;
            assert(self.hosts@[last].0@ == name_v);
            assert forall|n: Seq<char>| n != name_v implies self.host(n) == before.host(n) by {
                if exists|k: int| 0 <= k < self.hosts@.len() && self.hosts@[k].0@ == n {
                    let k = choose|k: int| 0 <= k < self.hosts@.len() && self.hosts@[k].0@ == n;
                    assert(k < last);
                    assert(before.hosts@[k].0@ == n);
                }
                if exists|k: int| 0 <= k < before.hosts@.len() && before.hosts@[k].0@ == n {
                    let k = choose|k: int| 0 <= k < before.hosts@.len() && before.hosts@[k].0@ == n;
                    assert(self.hosts@[k].0@ == n);
                }
            }
        }
    }
}


/// Whether `name` is the name of a built-in tool.
pub fn is_builtin(name: &str) -> (r: bool)
    ensures
        r == is_builtin_name(name@),
{
    str_eq(name, "sys_info") || str_eq(name, "calculator") || str_eq(name, "file_search")
        || str_eq(name, "fetch_url")
}

impl<H> HubManager<H> {
    fn route_position(&self, name: &str) -> (r: Option<usize>)
        requires
            routes_wf(self.routing().routes),
        ensures
            match r {
                Some(i) => i < self.tool_routing@.len() && self.routing().routes[i as int].0 == name@,
                None => !has_route(self.routing().routes, name@),
            },
    {
        let key = owned(name);
        let ghost routes = self.routing().routes;
        let mut i: usize = 0;
        while i < self.tool_routing.len()
            invariant
                routes == self.routing().routes,
                key@ == name@,
                i <= self.tool_routing@.len(),
                forall|k: int| 0 <= k < i ==> routes[k].0 != name@,
            decreases self.tool_routing@.len() - i,
        {
            assert(routes[i as int].0 == self.tool_routing@[i as int].0@);
            if self.tool_routing[i].0 == key {
                return Some(i);
            }
            i = i + 1;
        }
        None
    }

    /// Adds one tool of sub-server `server`, under its own name or, when
    /// that is taken, under `server__name`.
    pub fn merge_tool(&mut self, server: &str, def: ToolDefinition)
        requires
            old(self).wf(),
        ensures
            final(self).wf(),
            final(self).routing() == merge_one(old(self).routing(), server@, tool_definition_view(def)),
            forall|n: Seq<char>| final(self).host(n) == old(self).host(n),
    {
        let ghost m = self.routing();
        let ghost dv = tool_definition_view(def);
        let mut def = def;
        let original = def.name.clone();
        let taken = match self.route_position(original.as_str()) {
            Some(_) => true,
            None => false,
        };
        let conflict = taken || is_builtin(original.as_str());
        let exposed = if conflict {
            concat3(server, "__", original.as_str())
        } else {
            original.clone()
        };
        let ghost ex = exposed@;
        assert(ex == exposed_name(m.routes, server@, dv.0));
        let entry = (exposed.clone(), (owned(server), original));
        let ghost mut w: int = 0;
        match self.route_position(exposed.as_str()) {
            Some(i) => {
                proof {
                    w = i as int;
                }
                let ghost before = self.routing();
                self.tool_routing.set(i, entry);
                proof {
                    let j = choose|j: int| 0 <= j < before.routes.len() && (#[trigger] before.routes[j]).0 == ex;
                    assert(j == i as int);
                    assert(self.routing().routes =~= set_route(before.routes, ex, server@, dv.0));
                }
            },
            None => {
                let ghost before = self.routing();
                self.tool_routing.push(entry);
                proof {
                    w = self.tool_routing@.len() - 1;
                    assert(self.routing().routes =~= set_route(before.routes, ex, server@, dv.0));
                }
            },
        }
        def.name = exposed;
        let ghost mid = self.routing();
        self.merged_tools.push(def);
        proof {
            let after = self.routing();
            assert(after.routes == mid.routes);
            assert(after.merged =~= m.merged.push((ex, dv.1, dv.2)));
            let routes = after.routes;
            assert(routes[w].0 == ex);
            assert(has_route(routes, ex));
            assert(self.hosts == old(self).hosts);
            assert forall|k: int| 0 <= k < after.merged.len() implies has_route(routes, (#[trigger] after.merged[k]).0) by {
                if k < m.merged.len() {
                    let n = m.merged[k].0;
                    assert(has_route(m.routes, n));
                    let w = choose|w: int| 0 <= w < m.routes.len() && (#[trigger] m.routes[w]).0 == n;
                    assert(routes[w].0 == n);
                }
            }
            assert(routes_wf(routes));
        }
    }

    /// Adds a started sub-server: its host, then the tools it listed when
    /// the `tools/list` call reached it; a call that failed adds no tools.
    pub fn add_sub_server(&mut self, name: String, host: H, listing: Result<JsonRpcResponse, String>)
        requires
            old(self).wf(),
        ensures
            final(self).wf(),
            final(self).host(name@) == Some(host),
            forall|n: Seq<char>| n != name@ ==> final(self).host(n) == old(self).host(n),
            final(self).routing() == match listing {
                Ok(resp) => merge_items(old(self).routing(), name@, listing_items(resp@), 0),
                Err(_) => old(self).routing(),
            },
            old(self).routes_hosted() ==> final(self).routes_hosted(),
    {
        let ghost start = *self;
        self.add_host(name.clone(), host);
        let ghost mid = *self;
        proof {
            if start.routes_hosted() {
                let routes = mid.routing().routes;
                assert forall|k: int| 0 <= k < routes.len() implies (|s: Seq<char>| mid.host(s) is Some)(#[trigger] routes[k].1) by {
                    assert(start.host(routes[k].1) is Some);
                }
            }
        }
        match listing {
            Ok(resp) => {
                self.merge_listing(name.as_str(), &resp);
                proof {
                    if start.routes_hosted() {
                        let p = |s: Seq<char>| mid.host(s) is Some;
                        lemma_merge_items_within(mid.routing(), name@, listing_items(resp@), 0, p);
                        let routes = self.routing().routes;
                        assert forall|k: int| 0 <= k < routes.len() implies (|s: Seq<char>| self.host(s) is Some)(#[trigger] routes[k].1) by {
                            assert(p(routes[k].1));
                        }
                    }
                }
            },
            Err(_) => {},
        }
    }

    /// The hub of sub-servers started in order: each one's host, then the
    /// tools it listed when its `tools/list` call reached it.
    pub fn from_sub_servers(started: Vec<(String, H, Result<JsonRpcResponse, String>)>) -> (r: Self)
        ensures
            r.wf(),
            r.routes_hosted(),
            r.routing() == routing_after(
                RoutingModel { routes: seq![], merged: seq![] },
                started@.map_values(|s: (String, H, Result<JsonRpcResponse, String>)| started_model(s)),
            ),
            forall|k: int| 0 <= k < started@.len() ==> (#[trigger] r.host(started@[k].0@)) is Some,
            forall|n: Seq<char>| r.host(n) is Some ==> exists|k: int| 0 <= k < started@.len() && started@[k].0@ == n,
            forall|i: int| 0 <= i < r.routing().merged.len() ==> ({
                let name = #[trigger] r.routing().merged[i].0;
                &&& route_of(r.routing().routes, name) matches Some((server, original))
                &&& r.host(server) is Some
                &&& (name == original || name == server + "__"@ + original)
            }),
    {
        let ghost all = started@;
        let ghost models = all.map_values(|s: (String, H, Result<JsonRpcResponse, String>)| started_model(s));
        let ghost target = routing_after(RoutingModel { routes: seq![], merged: seq![] }, models);
        let mut hub = HubManager::empty();
        let mut rest = started;
        let mut done: usize = 0;
        assert(rest@ =~= all.skip(0));
        assert(models.skip(0) =~= models);
        let total = rest.len();
        while rest.len() > 0
            invariant
                all.len() == total,
                hub.wf(),
                hub.routes_hosted(),
                done <= all.len(),
                rest@ == all.skip(done as int),
                models == all.map_values(|s: (String, H, Result<JsonRpcResponse, String>)| started_model(s)),
                routing_after(hub.routing(), models.skip(done as int)) == target,
                forall|k: int| 0 <= k < done ==> (#[trigger] hub.host(all[k].0@)) is Some,
                forall|n: Seq<char>| hub.host(n) is Some ==> exists|k: int| 0 <= k < done && all[k].0@ == n,
            decreases rest@.len(),
        {
            let ghost before = hub;
            assert(done < all.len());
            let (name, host, listing) = rest.remove(0);
            proof {
                assert(models.skip(done as int)[0] == started_model(all[done as int]));
                assert(models.skip(done as int).drop_first() =~= models.skip(done as int + 1));
                assert(rest@ =~= all.skip(done as int + 1));
            }
            let ghost n = name@;
            hub.add_sub_server(name, host, listing);
            proof {
                assert forall|k: int| 0 <= k < done + 1 implies (#[trigger] hub.host(all[k].0@)) is Some by {
                    if all[k].0@ != n {
                        assert(before.host(all[k].0@) is Some);
                    }
                }
                assert forall|m: Seq<char>| hub.host(m) is Some implies exists|k: int| 0 <= k < done + 1 && all[k].0@ == m by {
                    if m != n {
                        assert(before.host(m) is Some);
                    } else {
                        assert(all[done as int].0@ == m);
                    }
                }
            }
            done = done + 1;
        }
        proof {
            assert(models.skip(done as int) =~= Seq::<(Seq<char>, Option<ResponseModel>)>::empty());
            assert forall|i: int| 0 <= i < hub.routing().merged.len() implies ({
                let name = #[trigger] hub.routing().merged[i].0;
                &&& route_of(hub.routing().routes, name) matches Some((server, original))
                &&& hub.host(server) is Some
                &&& (name == original || name == server + "__"@ + original)
            }) by {
                lemma_merged_tools_reach_a_host(hub, i);
            }
        }
        hub
    }

    /// Adds the tools that a sub-server listed in its reply to `tools/list`:
    /// each item of `result.tools` that decodes as a tool definition, in
    /// order.  An error reply, or one without a `tools` array, adds nothing.
    pub fn merge_listing(&mut self, server: &str, resp: &JsonRpcResponse)
        requires
            old(self).wf(),
        ensures
            final(self).wf(),
            final(self).routing() == merge_items(old(self).routing(), server@, listing_items(resp@), 0),
            forall|n: Seq<char>| final(self).host(n) == old(self).host(n),
    {
        let ghost items = listing_items(resp@);
        if resp.error.is_some() {
            return;
        }
        let result = match &resp.result {
            Some(r) => r,
            None => return,
        };
        let tools = match result.get("tools") {
            Some(JsonValue::Array(items)) => items,
            _ => {
                return;
            },
        };
        proof {
            crate::json::lemma_array_model(*tools);
            assert(items == crate::json::items_model(tools@));
        }
        let mut i: usize = 0;
        while i < tools.len()
            invariant
                self.wf(),
                items == crate::json::items_model(tools@),
                i <= tools@.len(),
                merge_items(old(self).routing(), server@, items, 0) == merge_items(self.routing(), server@, items, i as int),
                forall|n: Seq<char>| self.host(n) == old(self).host(n),
            decreases tools@.len() - i,
        {
            match ToolDefinition::from_json(&tools[i]) {
                Ok(def) => {
                    self.merge_tool(server, def);
                },
                Err(_) => {},
            }
            i = i + 1;
        }
    }
}

/// No built-in tool name holds two underscores in a row.
proof fn lemma_builtin_names_lack_double_underscore(name: Seq<char>, k: int)
    requires
        is_builtin_name(name),
        0 <= k,
        k + 1 < name.len(),
    ensures
        !(name[k] == '_' && name[k + 1] == '_'),
{
    reveal_strlit("sys_info");
    reveal_strlit("calculator");
    reveal_strlit("file_search");
    reveal_strlit("fetch_url");
}

/// A built-in tool name is never routed to a sub-server: a sub-server tool
/// of the same name is exposed as `server__name`.
pub proof fn lemma_builtin_names_never_routed(m: RoutingModel, name: Seq<char>)
    requires
        routing_wf(m),
        is_builtin_name(name),
    ensures
        route_of(m.routes, name) is None,
{
    if has_route(m.routes, name) {
        let i = choose|i: int| 0 <= i < m.routes.len() && (#[trigger] m.routes[i]).0 == name;
        let r = m.routes[i];
        assert(route_named_well(r));
        if r.0 != r.2 || is_builtin_name(r.2) {
            let k: int = r.1.len() as int;
            assert(r.0 == r.1 + "__"@ + r.2);
            reveal_strlit("__");
            assert(r.0[k] == '_' && r.0[k + 1] == '_');
            lemma_builtin_names_lack_double_underscore(name, k as int);
        }
    }
}

/// A sub-server tool added to the hub is listed under its exposed name and
/// routed back to its sub-server under its own name, whether or not the
/// name had to be prefixed.
pub proof fn lemma_merged_tool_routes_to_its_server(m: RoutingModel, server: Seq<char>, def: ToolView)
    requires
        routing_wf(m),
    ensures
        ({
            let exposed = exposed_name(m.routes, server, def.0);
            let after = merge_one(m, server, def);
            &&& route_of(after.routes, exposed) == Some((server, def.0))
            &&& after.merged.last() == (exposed, def.1, def.2)
        }),
{
    let exposed = exposed_name(m.routes, server, def.0);
    let routes = set_route(m.routes, exposed, server, def.0);
    if has_route(m.routes, exposed) {
        let i = choose|i: int| 0 <= i < m.routes.len() && (#[trigger] m.routes[i]).0 == exposed;
        assert(routes[i].0 == exposed);
        assert(has_route(routes, exposed));
        let j = choose|j: int| 0 <= j < routes.len() && (#[trigger] routes[j]).0 == exposed;
        if j != i {
            assert(m.routes[j].0 == exposed);
            if j < i {
                assert(m.routes[j].0 != m.routes[i].0);
            } else {
                assert(m.routes[i].0 != m.routes[j].0);
            }
        }
    } else {
        let last = m.routes.len() as int;
        assert(routes[last].0 == exposed);
        assert(has_route(routes, exposed));
        let j = choose|j: int| 0 <= j < routes.len() && (#[trigger] routes[j]).0 == exposed;
        if j != last {
            assert(m.routes[j].0 == exposed);
        }
    }
}

/// In a hub built by `empty` and `add_sub_server`, every merged tool is
/// routed, under its exposed name, to a sub-server that has a host, under the
/// tool's own name or the exposed name with `server__` in front.
pub proof fn lemma_merged_tools_reach_a_host<H>(hub: HubManager<H>, i: int)
    requires
        hub.wf(),
        hub.routes_hosted(),
        0 <= i < hub.routing().merged.len(),
    ensures
        ({
            let name = hub.routing().merged[i].0;
            &&& route_of(hub.routing().routes, name) matches Some((server, original))
            &&& hub.host(server) is Some
            &&& (name == original || name == server + "__"@ + original)
        }),
{
    let m = hub.routing();
    hub.lemma_routing_wf();
    lemma_merged_tools_are_routed(m, i);
    let n = m.merged[i].0;
    let j = choose|j: int| 0 <= j < m.routes.len() && (#[trigger] m.routes[j]).0 == n;
    assert((|s: Seq<char>| hub.host(s) is Some)(m.routes[j].1));
}

/// Every tool in the merged list can be called through its exposed name:
/// the route leads to a sub-server, under a name that is either the exposed
/// name itself or the exposed name with `server__` in front.
pub proof fn lemma_merged_tools_are_routed(m: RoutingModel, i: int)
    requires
        routing_wf(m),
        0 <= i < m.merged.len(),
    ensures
        route_of(m.routes, m.merged[i].0) matches Some((server, original))
            && (m.merged[i].0 == original || m.merged[i].0 == server + "__"@ + original),
{
    let n = m.merged[i].0;
    assert(has_route(m.routes, n));
    let j = choose|j: int| 0 <= j < m.routes.len() && (#[trigger] m.routes[j]).0 == n;
    assert(route_named_well(m.routes[j]));
}

} // verus!
