//! The path router: a tree of path segments in which each node may hold a
//! handler, children for literal segments, and one child that captures any
//! segment under a label.

use vstd::prelude::*;
use vstd::string::StringSliceAdditionalSpecFns;
use crate::bytes::{copy_of, copy_range, find_byte, next_byte, same_bytes};
use crate::connection::Connection;
use crate::handler::Handler;
use crate::protocol::Protocol;
use crate::request::Request;
use crate::response::{Response, ResponseCode, ResponseView};

verus! {

/// The segments of `s` from position `pos` on: the pieces between its
/// slashes, empty pieces included.
pub open spec fn segments_from(s: Seq<u8>, pos: int) -> Seq<Seq<u8>>
    decreases s.len() - pos,
{
    let end = next_byte(s, 47, pos);
    if pos < 0 || pos > s.len() {
        Seq::empty()
    } else if pos <= end && end < s.len() {
        seq![s.subrange(pos, end)] + segments_from(s, end + 1)
    } else {
        seq![s.subrange(pos, s.len() as int)]
    }
}

/// The segments of a path or of a pattern.
pub open spec fn segments_of(s: Seq<u8>) -> Seq<Seq<u8>> {
    segments_from(s, 0)
}

/// Whether a segment of a pattern captures: it is wrapped in braces.
pub open spec fn is_capture(segment: Seq<u8>) -> bool {
    segment.len() >= 2 && segment[0] == 123 && segment.last() == 125
}

/// The label of a capturing segment: what stands between its braces.
pub open spec fn label_of(segment: Seq<u8>) -> Seq<u8> {
    segment.subrange(1, segment.len() - 1)
}

/// The views of a list of byte strings.
pub open spec fn views(list: Seq<Vec<u8>>) -> Seq<Seq<u8>> {
    Seq::new(list.len(), |i: int| list[i]@)
}

/// The response for a path that no handler is bound to.
pub open spec fn not_found(protocol: Protocol) -> ResponseView {
    ResponseView {
        code: ResponseCode::NotFound,
        protocol,
        headers: Seq::empty(),
        content: None,
    }
}

/// Splits a path or a pattern at its slashes.
pub fn split_path(path: &[u8]) -> (segments: Vec<Vec<u8>>)
    ensures
        views(segments@) == segments_of(path@),
{
    let mut segments: Vec<Vec<u8>> = Vec::new();
    let mut pos: usize = 0;
    loop
        invariant_except_break
            pos <= path@.len(),
            views(segments@) + segments_from(path@, pos as int) == segments_of(path@),
        ensures
            views(segments@) == segments_of(path@),
        decreases path@.len() - pos,
    {
        let end = find_byte(path, 47, pos);
        let ghost before = views(segments@);
        if end < path.len() {
            segments.push(copy_range(path, pos, end));
            proof {
                let piece = path@.subrange(pos as int, end as int);
                assert(views(segments@) =~= before.push(piece));
                assert(before.push(piece) + segments_from(path@, end + 1) =~= before + (seq![piece]
                    + segments_from(path@, end + 1)));
            }
            pos = end + 1;
        } else {
            segments.push(copy_range(path, pos, path.len()));
            proof {
                let piece = path@.subrange(pos as int, path@.len() as int);
                assert(views(segments@) =~= before.push(piece));
                assert(before.push(piece) =~= before + seq![piece]);
            }
            break ;
        }
    }
    segments
}

/// The child of a node that captures a segment under a label.
pub struct PathParameterRouter<H> {
    pub label: Vec<u8>,
    pub router: BaseRouter<H>,
}

/// A node of the routing tree.
pub struct BaseRouter<H> {
    pub sub_routers: Vec<(Vec<u8>, BaseRouter<H>)>,
    pub handler: Option<H>,
    pub wildcard: Option<Box<PathParameterRouter<H>>>,
}

/// The first position at or after `from` whose child has the key `segment`,
/// or the number of children where none has.
pub open spec fn child_from<H>(
    children: Seq<(Vec<u8>, BaseRouter<H>)>,
    segment: Seq<u8>,
    from: int,
) -> int
    decreases children.len() - from,
{
    if from < 0 || from >= children.len() {
        children.len() as int
    } else if children[from].0@ == segment {
        from
    } else {
        child_from(children, segment, from + 1)
    }
}

/// The position that `child_from` gives lies between `from` and the number
/// of children, its child has the key unless there is no such child, and no
/// child before it, from `from` on, has the key.
pub proof fn lemma_child_from_bounds<H>(
    children: Seq<(Vec<u8>, BaseRouter<H>)>,
    segment: Seq<u8>,
    from: int,
)
    requires
        0 <= from <= children.len(),
    ensures
        from <= child_from(children, segment, from) <= children.len(),
        child_from(children, segment, from) < children.len() ==> children[child_from(
            children,
            segment,
            from,
        )].0@ == segment,
        forall|j: int|
            from <= j < child_from(children, segment, from) ==> (#[trigger] children[j]).0@
                != segment,
    decreases children.len() - from,
{
    if from < children.len() && children[from].0@ != segment {
        lemma_child_from_bounds(children, segment, from + 1);
    }
}

impl<H> Default for BaseRouter<H> {
    fn default() -> (router: Self)
        ensures
            router.is_empty(),
            router.wf(),
    {
        Self::new()
    }
}

impl<H> PathParameterRouter<H> {
    /// A capturing child with the label `label` and nothing below it.
    pub fn new(label: &[u8]) -> (child: PathParameterRouter<H>)
        ensures
            child.label@ == label@,
            child.router.is_empty(),
            child.router.wf(),
    {
        PathParameterRouter { label: copy_of(label), router: BaseRouter::new() }
    }
}

impl<H> BaseRouter<H> {
    /// Whether the node holds nothing: no handler and no child.
    pub open spec fn is_empty(self) -> bool {
        self.sub_routers@.len() == 0 && self.handler.is_none() && self.wildcard.is_none()
    }

    /// Whether the tree is well formed: at every node, no two children stand
    /// for the same literal segment.
    pub open spec fn wf(self) -> bool
        decreases self,
    {
        &&& forall|i: int, j: int|
            #![trigger self.sub_routers@[i], self.sub_routers@[j]]
            0 <= i < j < self.sub_routers@.len() ==> self.sub_routers@[i].0@
                != self.sub_routers@[j].0@
        &&& forall|i: int|
            0 <= i < self.sub_routers@.len() ==> (#[trigger] self.sub_routers@[i]).1.wf()
        &&& match self.wildcard {
            Some(child) => child.router.wf(),
            None => true,
        }
    }

    /// The position of the child for the literal segment `segment`, or the
    /// number of children where there is none.
    pub open spec fn child_for(self, segment: Seq<u8>) -> int {
        child_from(self.sub_routers@, segment, 0)
    }

    /// The node that the path `segments` leads to from this one. At each node
    /// the child for the literal segment is taken where there is one, and the
    /// capturing child only where there is none.
    pub open spec fn resolve(self, segments: Seq<Seq<u8>>) -> Option<BaseRouter<H>>
        decreases segments.len(),
    {
        if segments.len() == 0 {
            Some(self)
        } else {
            let i = self.child_for(segments[0]);
            if 0 <= i < self.sub_routers@.len() {
                self.sub_routers@[i].1.resolve(segments.skip(1))
            } else {
                match self.wildcard {
                    Some(child) => child.router.resolve(segments.skip(1)),
                    None => None,
                }
            }
        }
    }

    /// The path parameters that resolving `segments` from this node binds:
    /// for each segment that a capturing child takes, its label and the
    /// segment, in the order of the path.
    pub open spec fn captures(self, segments: Seq<Seq<u8>>) -> Seq<(Seq<u8>, Seq<u8>)>
        decreases segments.len(),
    {
        if segments.len() == 0 {
            Seq::empty()
        } else {
            let i = self.child_for(segments[0]);
            if 0 <= i < self.sub_routers@.len() {
                self.sub_routers@[i].1.captures(segments.skip(1))
            } else {
                match self.wildcard {
                    Some(child) => seq![(child.label@, segments[0])] + child.router.captures(
                        segments.skip(1),
                    ),
                    None => Seq::empty(),
                }
            }
        }
    }

    /// The handler bound where the path `segments` leads, if it leads to a
    /// node and that node has one.
    pub open spec fn handler_at(self, segments: Seq<Seq<u8>>) -> Option<H> {
        match self.resolve(segments) {
            Some(node) => node.handler,
            None => None,
        }
    }

    /// Whether `response` answers the request `before` on this tree, and
    /// `after` is the request as the handler saw it: with the path parameters
    /// that resolving its target binds. The handler bound where the target
    /// leads gives the response; where none is bound there, the response is
    /// `404 Not Found` with the request's protocol.
    pub open spec fn answered(self, before: Request, after: Request, response: ResponseView) -> bool
        where H: Handler
    {
        let path = segments_of(before.target@);
        &&& after.method == before.method
        &&& after.target == before.target
        &&& after.protocol == before.protocol
        &&& after.header_fields == before.header_fields
        &&& after.parameters() == before.parameters() + self.captures(path)
        &&& match self.handler_at(path) {
            Some(handler) => handler.answers(after, response),
            None => response == not_found(before.protocol),
        }
    }

    /// Whether `self` is `before` but for the handler that the path
    /// `segments` leads to, which may have changed by being called. Every
    /// node, every other handler and every label is as it was, and where the
    /// path leads to no handler, so is the whole tree.
    pub open spec fn differs_only_at(self, before: BaseRouter<H>, segments: Seq<Seq<u8>>) -> bool
        decreases segments.len(),
    {
        if segments.len() == 0 {
            &&& self.handler.is_some() == before.handler.is_some()
            &&& self.sub_routers == before.sub_routers
            &&& self.wildcard == before.wildcard
        } else {
            let i = before.child_for(segments[0]);
            &&& self.handler == before.handler
            &&& if 0 <= i < before.sub_routers@.len() {
                &&& self.wildcard == before.wildcard
                &&& self.sub_routers@.len() == before.sub_routers@.len()
                &&& forall|j: int|
                    0 <= j < before.sub_routers@.len() && j != i ==> #[trigger] self.sub_routers@[j]
                        == before.sub_routers@[j]
                &&& self.sub_routers@[i].0 == before.sub_routers@[i].0
                &&& self.sub_routers@[i].1.differs_only_at(
                    before.sub_routers@[i].1,
                    segments.skip(1),
                )
            } else {
                &&& self.sub_routers == before.sub_routers
                &&& match (self.wildcard, before.wildcard) {
                    (Some(child), Some(old_child)) => child.label == old_child.label
                        && child.router.differs_only_at(old_child.router, segments.skip(1)),
                    (None, None) => true,
                    _ => false,
                }
            }
        }
    }

    /// Whether `self` is `before` with `handler` bound at the end of the
    /// pattern `pattern` and nothing else changed: the nodes along the pattern
    /// are those of `before` where it had them and new ones where it had not.
    /// A capturing segment reuses the capturing child with its label, and
    /// puts a new one in place of a capturing child with another label.
    pub open spec fn is_bound(
        self,
        before: BaseRouter<H>,
        pattern: Seq<Seq<u8>>,
        handler: H,
    ) -> bool
        decreases pattern.len(),
    {
        if pattern.len() == 0 {
            &&& self.handler == Some(handler)
            &&& self.sub_routers == before.sub_routers
            &&& self.wildcard == before.wildcard
        } else if is_capture(pattern[0]) {
            &&& self.handler == before.handler
            &&& self.sub_routers == before.sub_routers
            &&& match self.wildcard {
                Some(child) => child.label@ == label_of(pattern[0]) && match before.wildcard {
                    Some(old_child) if old_child.label@ == label_of(pattern[0]) => {
                        child.router.is_bound(old_child.router, pattern.skip(1), handler)
                    },
                    _ => exists|fresh: BaseRouter<H>| #[trigger]
                        fresh.is_empty() && child.router.is_bound(fresh, pattern.skip(1), handler),
                },
                None => false,
            }
        } else {
            let i = before.child_for(pattern[0]);
            &&& self.handler == before.handler
            &&& self.wildcard == before.wildcard
            &&& if 0 <= i < before.sub_routers@.len() {
                &&& self.sub_routers@.len() == before.sub_routers@.len()
                &&& forall|j: int|
                    0 <= j < before.sub_routers@.len() && j != i ==> #[trigger] self.sub_routers@[j]
                        == before.sub_routers@[j]
                &&& self.sub_routers@[i].0@ == pattern[0]
                &&& self.sub_routers@[i].1.is_bound(
                    before.sub_routers@[i].1,
                    pattern.skip(1),
                    handler,
                )
            } else {
                let n = before.sub_routers@.len() as int;
                &&& self.sub_routers@.len() == n + 1
                &&& forall|j: int|
                    0 <= j < n ==> #[trigger] self.sub_routers@[j] == before.sub_routers@[j]
                &&& self.sub_routers@[n].0@ == pattern[0]
                &&& exists|fresh: BaseRouter<H>| #[trigger]
                    fresh.is_empty() && self.sub_routers@[n].1.is_bound(
                        fresh,
                        pattern.skip(1),
                        handler,
                    )
            }
        }
    }

    /// The handler bound at the end of the pattern `pattern`, where the tree
    /// has the nodes along it.
    pub open spec fn bound_at(self, pattern: Seq<Seq<u8>>) -> Option<H>
        decreases pattern.len(),
    {
        if pattern.len() == 0 {
            self.handler
        } else if is_capture(pattern[0]) {
            match self.wildcard {
                Some(child) if child.label@ == label_of(pattern[0]) => child.router.bound_at(
                    pattern.skip(1),
                ),
                _ => None,
            }
        } else {
            let i = self.child_for(pattern[0]);
            if 0 <= i < self.sub_routers@.len() {
                self.sub_routers@[i].1.bound_at(pattern.skip(1))
            } else {
                None
            }
        }
    }

    /// A node that holds nothing.
    pub fn new() -> (router: BaseRouter<H>)
        ensures
            router.is_empty(),
            router.wf(),
    {
        BaseRouter { sub_routers: Vec::new(), handler: None, wildcard: None }
    }

    /// Binds `handler` at this node and returns the handler that was bound
    /// there before, if there was one.
    pub fn register_handler(&mut self, handler: H) -> (replaced: Option<H>)
        ensures
            replaced == old(self).handler,
            final(self).handler == Some(handler),
            final(self).sub_routers == old(self).sub_routers,
            final(self).wildcard == old(self).wildcard,
            final(self).is_bound(*old(self), Seq::empty(), handler),
            old(self).wf() ==> final(self).wf(),
    {
        let replaced = self.handler.take();
        self.handler = Some(handler);
        replaced
    }

    /// The position of the child for the literal segment `segment`.
    fn find_child(&self, segment: &[u8]) -> (i: usize)
        ensures
            i == self.child_for(segment@),
            i <= self.sub_routers@.len(),
            i < self.sub_routers@.len() ==> self.sub_routers@[i as int].0@ == segment@,
            forall|j: int| 0 <= j < i ==> (#[trigger] self.sub_routers@[j]).0@ != segment@,
    {
        let mut i: usize = 0;
        proof {
            lemma_child_from_bounds(self.sub_routers@, segment@, 0);
        }
        while i < self.sub_routers.len()
            invariant
                i <= self.sub_routers@.len(),
                self.child_for(segment@) == child_from(self.sub_routers@, segment@, i as int),
                forall|j: int| 0 <= j < i ==> (#[trigger] self.sub_routers@[j]).0@ != segment@,
            decreases self.sub_routers@.len() - i,
        {
            if same_bytes(self.sub_routers[i].0.as_slice(), segment) {
                return i;
            }
            i += 1;
        }
        i
    }
}

/// Nothing is bound anywhere in a node that holds nothing.
pub proof fn lemma_empty_binds_nothing<H>(router: BaseRouter<H>, pattern: Seq<Seq<u8>>)
    requires
        router.is_empty(),
    ensures
        router.bound_at(pattern).is_none(),
        router.handler_at(pattern).is_none(),
        pattern.len() > 0 ==> router.resolve(pattern).is_none(),
{
}

/// Whether a segment of a pattern captures.
fn segment_is_capture(segment: &[u8]) -> (capture: bool)
    ensures
        capture == is_capture(segment@),
{
    segment.len() >= 2 && segment[0] == 123 && segment[segment.len() - 1] == 125
}

impl<H: Handler> BaseRouter<H> {
    /// Binds `handler` at the end of the pattern `path`, whose segments are
    /// parted by slashes and capture where they are wrapped in braces. The
    /// nodes along the pattern are made where the tree lacks them. Returns the
    /// handler that was bound there before, if there was one.
    pub fn register_handler_from_path(&mut self, handler: H, path: &str) -> (replaced: Option<H>)
        ensures
            final(self).is_bound(*old(self), segments_of(path.spec_bytes()), handler),
            replaced == old(self).bound_at(segments_of(path.spec_bytes())),
            old(self).wf() ==> final(self).wf(),
    {
        let segments = split_path(path.as_bytes());
        proof {
            assert(views(segments@).skip(0) =~= views(segments@));
        }
        self.create_route(handler, &segments, 0)
    }

    /// Makes the nodes that the pattern `segments[at..]` asks for below this
    /// node, where the tree lacks them, and binds `handler` at its end.
    pub fn create_route(&mut self, handler: H, segments: &Vec<Vec<u8>>, at: usize) -> (replaced:
        Option<H>)
        requires
            at <= segments@.len(),
        ensures
            final(self).is_bound(*old(self), views(segments@).skip(at as int), handler),
            replaced == old(self).bound_at(views(segments@).skip(at as int)),
            old(self).wf() ==> final(self).wf(),
        decreases segments@.len() - at,
    {
        let ghost pattern = views(segments@).skip(at as int);
        if at >= segments.len() {
            return self.register_handler(handler);
        }
        proof {
            assert(pattern[0] == segments@[at as int]@);
            assert(pattern.skip(1) =~= views(segments@).skip(at + 1));
        }
        let segment = segments[at].as_slice();
        if segment_is_capture(segment) {
            let label = copy_range(segment, 1, segment.len() - 1);
            let reuse = match &self.wildcard {
                Some(child) => same_bytes(child.label.as_slice(), label.as_slice()),
                None => false,
            };
            if !reuse {
                let fresh = PathParameterRouter::new(label.as_slice());
                proof {
                    lemma_empty_binds_nothing(fresh.router, pattern.skip(1));
                }
                self.wildcard = Some(Box::new(fresh));
            }
            match &mut self.wildcard {
                Some(child) => child.router.create_route(handler, segments, at + 1),
                None => None,
            }
        } else {
            let i = self.find_child(segment);
            if i >= self.sub_routers.len() {
                let fresh = BaseRouter::new();
                proof {
                    lemma_empty_binds_nothing(fresh, pattern.skip(1));
                }
                self.sub_routers.push((copy_of(segment), fresh));
            }
            self.sub_routers[i].1.create_route(handler, segments, at + 1)
        }
    }

    /// Resolves the target of `request` and lets the handler bound there
    /// answer; where no handler is bound there, the answer is `404 Not Found`
    /// with the request's protocol. The segments that capturing children take
    /// are bound as path parameters of the request before the handler sees it.
    pub fn route(&mut self, connection: &mut Connection, request: &mut Request) -> (response:
        Response)
        requires
            old(connection).wf(),
        ensures
            final(connection).wf(),
            final(connection)@ == old(connection)@,
            final(self).differs_only_at(*old(self), segments_of(old(request).target@)),
            old(self).wf() ==> final(self).wf(),
            old(self).answered(*old(request), *final(request), response@),
    {
        let segments = split_path(request.target.as_slice());
        proof {
            assert(views(segments@).skip(0) =~= views(segments@));
        }
        self.route_from_path(connection, request, &segments, 0)
    }

    /// Resolves the path `segments[at..]` from this node on and answers as
    /// `route` does.
    pub fn route_from_path(
        &mut self,
        connection: &mut Connection,
        request: &mut Request,
        segments: &Vec<Vec<u8>>,
        at: usize,
    ) -> (response: Response)
        requires
            at <= segments@.len(),
            old(connection).wf(),
        ensures
            final(connection).wf(),
            final(connection)@ == old(connection)@,
            final(self).differs_only_at(*old(self), views(segments@).skip(at as int)),
            old(self).wf() ==> final(self).wf(),
            final(request).method == old(request).method,
            final(request).target == old(request).target,
            final(request).protocol == old(request).protocol,
            final(request).header_fields == old(request).header_fields,
            final(request).parameters() == old(request).parameters() + old(self).captures(
                views(segments@).skip(at as int),
            ),
            match old(self).handler_at(views(segments@).skip(at as int)) {
                Some(handler) => handler.answers(*final(request), response@),
                None => response@ == not_found(old(request).protocol),
            },
        decreases segments@.len() - at,
    {
        let ghost path = views(segments@).skip(at as int);
        if at >= segments.len() {
            proof {
                assert(old(request).parameters() + Seq::<(Seq<u8>, Seq<u8>)>::empty()
                    =~= old(request).parameters());
            }
            return match &mut self.handler {
                Some(handler) => handler.handle(connection, request),
                None => Response::new(ResponseCode::NotFound, request.get_protocol()),
            };
        }
        proof {
            assert(path[0] == segments@[at as int]@);
            assert(path.skip(1) =~= views(segments@).skip(at + 1));
        }
        let i = self.find_child(segments[at].as_slice());
        if i < self.sub_routers.len() {
            self.sub_routers[i].1.route_from_path(connection, request, segments, at + 1)
        } else {
            match &mut self.wildcard {
                Some(child) => {
                    let label = copy_of(child.label.as_slice());
                    let value = copy_of(segments[at].as_slice());
                    request.bind_path_parameter(label, value);
                    let response = child.router.route_from_path(
                        connection,
                        request,
                        segments,
                        at + 1,
                    );
                    proof {
                        let bound = (child.label@, path[0]);
                        let rest = old(self).wildcard.unwrap().router.captures(path.skip(1));
                        assert(old(request).parameters().push(bound) + rest =~= old(
                            request,
                        ).parameters() + (seq![bound] + rest));
                    }
                    response
                },
                None => {
                    proof {
                        assert(old(request).parameters() + Seq::<(Seq<u8>, Seq<u8>)>::empty()
                            =~= old(request).parameters());
                    }
                    Response::new(ResponseCode::NotFound, request.get_protocol())
                },
            }
        }
    }
}

/// The first child with a key is the child for that key.
pub proof fn lemma_first_child_is_found<H>(
    children: Seq<(Vec<u8>, BaseRouter<H>)>,
    segment: Seq<u8>,
    from: int,
    at: int,
)
    requires
        0 <= from <= at <= children.len(),
        forall|j: int| from <= j < at ==> (#[trigger] children[j]).0@ != segment,
        at < children.len() ==> children[at].0@ == segment,
    ensures
        child_from(children, segment, from) == at,
    decreases at - from,
{
    if from < at {
        lemma_first_child_is_found(children, segment, from + 1, at);
    }
}

/// An exact match always wins: where a node has a child for the first
/// segment of a path, the path is resolved through that child and the
/// segment is not captured, whatever capturing child the node has.
pub proof fn lemma_exact_child_wins<H>(router: BaseRouter<H>, path: Seq<Seq<u8>>)
    requires
        path.len() > 0,
        router.child_for(path[0]) < router.sub_routers@.len(),
    ensures
        router.resolve(path) == router.sub_routers@[router.child_for(path[0])].1.resolve(
            path.skip(1),
        ),
        router.captures(path) == router.sub_routers@[router.child_for(path[0])].1.captures(
            path.skip(1),
        ),
{
    lemma_child_from_bounds(router.sub_routers@, path[0], 0);
}

/// Where a node has no child for the first segment of a path, its capturing
/// child takes the segment under its label; where it has no capturing child
/// either, the path leads nowhere.
pub proof fn lemma_capture_is_the_fallback<H>(router: BaseRouter<H>, path: Seq<Seq<u8>>)
    requires
        path.len() > 0,
        router.child_for(path[0]) >= router.sub_routers@.len(),
    ensures
        match router.wildcard {
            Some(child) => router.resolve(path) == child.router.resolve(path.skip(1))
                && router.captures(path) == seq![(child.label@, path[0])] + child.router.captures(
                path.skip(1),
            ),
            None => router.resolve(path).is_none() && router.handler_at(path).is_none(),
        },
{
}

/// After a handler was bound at the end of a pattern, it is the handler
/// bound there.
pub proof fn lemma_bound_is_found<H>(
    after: BaseRouter<H>,
    before: BaseRouter<H>,
    pattern: Seq<Seq<u8>>,
    handler: H,
)
    requires
        after.is_bound(before, pattern, handler),
    ensures
        after.bound_at(pattern) == Some(handler),
    decreases pattern.len(),
{
    if pattern.len() == 0 {
    } else if is_capture(pattern[0]) {
        let child = after.wildcard.unwrap();
        match before.wildcard {
            Some(old_child) if old_child.label@ == label_of(pattern[0]) => {
                lemma_bound_is_found(child.router, old_child.router, pattern.skip(1), handler);
            },
            _ => {
                let fresh = choose|fresh: BaseRouter<H>| #[trigger]
                    fresh.is_empty() && child.router.is_bound(fresh, pattern.skip(1), handler);
                lemma_bound_is_found(child.router, fresh, pattern.skip(1), handler);
            },
        }
    } else {
        let i = before.child_for(pattern[0]);
        let n = before.sub_routers@.len() as int;
        lemma_child_from_bounds(before.sub_routers@, pattern[0], 0);
        if 0 <= i < n {
            assert forall|j: int| 0 <= j < i implies (#[trigger] after.sub_routers@[j]).0@
                != pattern[0] by {
                assert(after.sub_routers@[j] == before.sub_routers@[j]);
            }
            lemma_first_child_is_found(after.sub_routers@, pattern[0], 0, i);
            lemma_bound_is_found(
                after.sub_routers@[i].1,
                before.sub_routers@[i].1,
                pattern.skip(1),
                handler,
            );
        } else {
            assert forall|j: int| 0 <= j < n implies (#[trigger] after.sub_routers@[j]).0@
                != pattern[0] by {
                assert(after.sub_routers@[j] == before.sub_routers@[j]);
            }
            lemma_first_child_is_found(after.sub_routers@, pattern[0], 0, n);
            let fresh = choose|fresh: BaseRouter<H>| #[trigger]
                fresh.is_empty() && after.sub_routers@[n].1.is_bound(
                    fresh,
                    pattern.skip(1),
                    handler,
                );
            lemma_bound_is_found(after.sub_routers@[n].1, fresh, pattern.skip(1), handler);
        }
    }
}

/// A path of literal segments leads to the handler bound at the pattern
/// with the same segments: no capturing child can come in between.
pub proof fn lemma_literal_pattern_resolves<H>(router: BaseRouter<H>, pattern: Seq<Seq<u8>>)
    requires
        forall|i: int| 0 <= i < pattern.len() ==> !is_capture(#[trigger] pattern[i]),
        router.bound_at(pattern).is_some(),
    ensures
        router.handler_at(pattern) == router.bound_at(pattern),
        router.captures(pattern) == Seq::<(Seq<u8>, Seq<u8>)>::empty(),
    decreases pattern.len(),
{
    if pattern.len() > 0 {
        let i = router.child_for(pattern[0]);
        assert(!is_capture(pattern[0]));
        assert forall|j: int| 0 <= j < pattern.skip(1).len() implies !is_capture(
            #[trigger] pattern.skip(1)[j],
        ) by {
            assert(pattern.skip(1)[j] == pattern[j + 1]);
        }
        lemma_literal_pattern_resolves(router.sub_routers@[i].1, pattern.skip(1));
    }
}

} // verus!
