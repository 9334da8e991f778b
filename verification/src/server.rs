//! The reactor's decisions: which descriptors to wait for, what each outcome
//! of a system call does to the socket and the connections, and which
//! connections are done with.

use vstd::prelude::*;
use crate::connection::{
    is_reading_of, read_view, Connection, ConnectionReadError, ConnectionStatus, ConnectionView,
};
use crate::error_utils::MaybeFatal;
use crate::handler::Handler;
use crate::protocol::Protocol;
use crate::request::{request_line, Request};
use crate::response::{Response, ResponseCode, ResponseView};
use crate::router::{segments_of, BaseRouter};
use crate::socket::{Socket, SocketAcceptError, SocketListeningError};

verus! {

#[derive(Clone, Copy, Debug, PartialEq, Eq, Structural)]
pub enum HTTPServerRunError {
    SocketListeningError(SocketListeningError),
    SocketAcceptError(SocketAcceptError),
}

impl MaybeFatal for HTTPServerRunError {
    open spec fn fatal(&self) -> bool {
        match self {
            Self::SocketListeningError(error) => error.fatal(),
            Self::SocketAcceptError(error) => error.fatal(),
        }
    }

    fn is_fatal(&self) -> (fatal: bool) {
        match self {
            Self::SocketListeningError(error) => error.is_fatal(),
            Self::SocketAcceptError(error) => error.is_fatal(),
        }
    }
}

/// Whether a connection in this status waits for its descriptor to become
/// readable.
pub open spec fn wants_read(status: ConnectionStatus) -> bool {
    status == ConnectionStatus::Reading
}

/// Whether a connection in this status waits for its descriptor to become
/// writable.
pub open spec fn wants_write(status: ConnectionStatus) -> bool {
    status == ConnectionStatus::AwaitingResponse || status == ConnectionStatus::Writing
}

/// The descriptors of the connections that wait to read, in their order.
pub open spec fn reading_descriptors(connections: Seq<ConnectionView>) -> Seq<usize>
    decreases connections.len(),
{
    if connections.len() == 0 {
        Seq::empty()
    } else if wants_read(connections.last().status) {
        reading_descriptors(connections.drop_last()).push(connections.last().descriptor)
    } else {
        reading_descriptors(connections.drop_last())
    }
}

/// The descriptors of the connections that wait to write, in their order.
pub open spec fn writing_descriptors(connections: Seq<ConnectionView>) -> Seq<usize>
    decreases connections.len(),
{
    if connections.len() == 0 {
        Seq::empty()
    } else if wants_write(connections.last().status) {
        writing_descriptors(connections.drop_last()).push(connections.last().descriptor)
    } else {
        writing_descriptors(connections.drop_last())
    }
}

/// The highest of `floor` and the descriptors of all the connections.
pub open spec fn highest_descriptor(connections: Seq<ConnectionView>, floor: usize) -> usize
    decreases connections.len(),
{
    if connections.len() == 0 {
        floor
    } else {
        let rest = highest_descriptor(connections.drop_last(), floor);
        if connections.last().descriptor > rest {
            connections.last().descriptor
        } else {
            rest
        }
    }
}

/// The connections that are not dead, in their order.
pub open spec fn living(connections: Seq<ConnectionView>) -> Seq<ConnectionView>
    decreases connections.len(),
{
    if connections.len() == 0 {
        Seq::empty()
    } else if connections[0].status == ConnectionStatus::Dead {
        living(connections.skip(1))
    } else {
        seq![connections[0]] + living(connections.skip(1))
    }
}

/// The descriptors of the dead connections, in their order.
pub open spec fn dead_descriptors(connections: Seq<ConnectionView>) -> Seq<usize>
    decreases connections.len(),
{
    if connections.len() == 0 {
        Seq::empty()
    } else if connections[0].status == ConnectionStatus::Dead {
        seq![connections[0].descriptor] + dead_descriptors(connections.skip(1))
    } else {
        dead_descriptors(connections.skip(1))
    }
}

/// The response to bytes that are no request.
pub open spec fn bad_request() -> ResponseView {
    ResponseView {
        code: ResponseCode::BadRequest,
        protocol: Protocol::Http1_1,
        headers: Seq::empty(),
        content: None,
    }
}

/// A connection just accepted on `descriptor`.
pub open spec fn accepted(descriptor: usize) -> ConnectionView {
    ConnectionView {
        descriptor,
        status: ConnectionStatus::Reading,
        accumulator: Seq::empty(),
        write_cursor: 0,
    }
}

/// Whether `after` is the connection `read`, whose reading has just ended,
/// with the answer to what it read queued on it: for a request, a response
/// with which `router` answers it, which leaves `router_after`; for bytes
/// that are no request, `400 Bad Request`, and the router as it was.
pub open spec fn answer_queued<H: Handler>(
    router: BaseRouter<H>,
    router_after: BaseRouter<H>,
    read: ConnectionView,
    after: ConnectionView,
) -> bool {
    ||| exists|asked: Request, seen: Request, response: ResponseView| #[trigger]
        router.answered(asked, seen, response) && Request::parsed(
            Ok(asked),
            read.accumulator,
        ) && after == read.responding(response.wire()) && router_after.differs_only_at(
            router,
            segments_of(asked.target@),
        )
    ||| request_line(read.accumulator).is_err() && after == read.responding(bad_request().wire())
        && router_after == router
}

/// What one readiness wait is asked to watch.
pub struct WaitSet {
    /// The descriptors to watch for reading.
    pub read: Vec<usize>,
    /// The descriptors to watch for writing.
    pub write: Vec<usize>,
    /// The highest descriptor of the socket and of all the connections.
    pub highest: usize,
}

pub struct HTTPServer<H> {
    pub socket: Socket,
    pub connections: Vec<Connection>,
    pub router: BaseRouter<H>,
}

impl<H: Handler> HTTPServer<H> {
    /// The connections as mathematical values.
    pub open spec fn views(self) -> Seq<ConnectionView> {
        Seq::new(self.connections@.len(), |i: int| self.connections@[i]@)
    }

    /// Whether the server has the connections of `before`, each as it was
    /// but for the one at `index`.
    pub open spec fn changed_only_at(self, before: Self, index: int) -> bool {
        &&& self.views().len() == before.views().len()
        &&& forall|i: int|
            0 <= i < before.views().len() && i != index ==> #[trigger] self.views()[i]
                == before.views()[i]
    }

    /// Every connection of the server is well formed.
    pub open spec fn wf(self) -> bool {
        forall|i: int| 0 <= i < self.connections@.len() ==> (#[trigger] self.connections@[i]).wf()
    }

    /// A server on `socket` that routes with `router` and has no connection
    /// yet.
    pub fn new(socket: Socket, router: BaseRouter<H>) -> (server: HTTPServer<H>)
        ensures
            server.wf(),
            server.socket == socket,
            server.router == router,
            server.views() == Seq::<ConnectionView>::empty(),
    {
        let server = HTTPServer { socket, connections: Vec::new(), router };
        proof {
            assert(server.views() =~= Seq::<ConnectionView>::empty());
        }
        server
    }

    /// Takes in the outcome of making the socket listen at the start of a
    /// run. Only a failure to listen ends the run; a socket that listens
    /// already is left alone.
    pub fn start(&mut self, outcome: Result<usize, i32>) -> (stop: Option<HTTPServerRunError>)
        ensures
            final(self).socket@ == old(self).socket@.after_listen(outcome),
            final(self).connections == old(self).connections,
            final(self).router == old(self).router,
            stop == match old(self).socket@.listen_report(outcome) {
                Err(SocketListeningError::ListeningFailed(code)) => Some(
                    HTTPServerRunError::SocketListeningError(
                        SocketListeningError::ListeningFailed(code),
                    ),
                ),
                _ => None,
            },
    {
        if self.socket.is_listening() {
            return None;
        }
        match self.socket.start_listening(outcome) {
            Ok(_) => None,
            Err(error) => Some(HTTPServerRunError::SocketListeningError(error)),
        }
    }

    /// The descriptors that the next readiness wait watches: for reading,
    /// those of the reading connections and then the socket's; for writing,
    /// those of the connections that await a response or write.
    pub fn wait_set(&self) -> (set: WaitSet)
        ensures
            set.read@ == reading_descriptors(self.views()).push(self.socket@.descriptor),
            set.write@ == writing_descriptors(self.views()),
            set.highest == highest_descriptor(self.views(), self.socket@.descriptor),
    {
        let mut read: Vec<usize> = Vec::new();
        let mut write: Vec<usize> = Vec::new();
        let mut highest: usize = self.socket.get_file_descriptor();
        let mut i: usize = 0;
        proof {
            assert(self.views().take(0) =~= Seq::<ConnectionView>::empty());
        }
        while i < self.connections.len()
            invariant
                i <= self.connections@.len(),
                read@ == reading_descriptors(self.views().take(i as int)),
                write@ == writing_descriptors(self.views().take(i as int)),
                highest == highest_descriptor(self.views().take(i as int), self.socket@.descriptor),
            decreases self.connections@.len() - i,
        {
            let connection = &self.connections[i];
            proof {
                let upto = self.views().take(i + 1);
                assert(upto.drop_last() =~= self.views().take(i as int));
                assert(upto.last() == connection@);
            }
            if connection.is_reading() {
                read.push(connection.get_file_descriptor());
            } else if connection.is_awaiting_response() || connection.is_writing() {
                write.push(connection.get_file_descriptor());
            }
            if connection.get_file_descriptor() > highest {
                highest = connection.get_file_descriptor();
            }
            i += 1;
        }
        proof {
            assert(self.views().take(i as int) =~= self.views());
        }
        read.push(self.socket.get_file_descriptor());
        WaitSet { read, write, highest }
    }

    /// Takes in the outcome of asking for a pending connection: a new
    /// descriptor becomes a reading connection at the end of the list.
    pub fn accept_connections(&mut self, outcome: Result<usize, i32>) -> (result: Result<
        (),
        HTTPServerRunError,
    >)
        requires
            old(self).wf(),
        ensures
            final(self).wf(),
            final(self).socket@ == old(self).socket@.after_accept(outcome),
            final(self).router == old(self).router,
            match old(self).socket@.accept_report(outcome) {
                Ok(descriptor) => result.is_ok() && final(self).views() == old(self).views().push(
                    accepted(descriptor),
                ),
                Err(error) => result == Err::<(), HTTPServerRunError>(
                    HTTPServerRunError::SocketAcceptError(error),
                ) && final(self).connections == old(self).connections,
            },
    {
        match self.socket.accept_connection(outcome) {
            Ok(descriptor) => {
                self.connections.push(Connection::new(descriptor));
                proof {
                    assert(self.views() =~= old(self).views().push(accepted(descriptor)));
                }
                Ok(())
            },
            Err(error) => Err(HTTPServerRunError::SocketAcceptError(error)),
        }
    }

    /// Accepts as `accept_connections` does, and says whether the run must
    /// stop: it must on a fatal failure, which is returned, and goes on after
    /// any other.
    pub fn accept_step(&mut self, outcome: Result<usize, i32>) -> (stop: Option<HTTPServerRunError>)
        requires
            old(self).wf(),
        ensures
            final(self).wf(),
            final(self).socket@ == old(self).socket@.after_accept(outcome),
            final(self).router == old(self).router,
            match old(self).socket@.accept_report(outcome) {
                Ok(descriptor) => stop.is_none() && final(self).views() == old(self).views().push(
                    accepted(descriptor),
                ),
                Err(error) => final(self).connections == old(self).connections && stop == (
                if error.fatal() {
                    Some(HTTPServerRunError::SocketAcceptError(error))
                } else {
                    None
                }),
            },
    {
        match self.accept_connections(outcome) {
            Ok(_) => None,
            Err(error) => if error.is_fatal() {
                Some(error)
            } else {
                None
            },
        }
    }

    /// Lets the router answer `request` on the connection at `index` and
    /// queues the answer's bytes on it. A connection that does not await a
    /// response is left as it is.
    pub fn respond(&mut self, index: usize, request: &mut Request)
        requires
            old(self).wf(),
            index < old(self).connections@.len(),
        ensures
            final(self).wf(),
            final(self).socket == old(self).socket,
            final(self).router.differs_only_at(
                old(self).router,
                segments_of(old(request).target@),
            ),
            final(self).changed_only_at(*old(self), index as int),
            exists|response: ResponseView| #[trigger]
                old(self).router.answered(*old(request), *final(request), response)
                    && final(self).views()[index as int] == (if old(self).views()[index as int].status
                    == ConnectionStatus::AwaitingResponse {
                    old(self).views()[index as int].responding(response.wire())
                } else {
                    old(self).views()[index as int]
                }),
    {
        let response = self.router.route(&mut self.connections[index], request);
        let bytes = response.serialize();
        let _ = self.connections[index].begin_response_bytes(bytes.as_slice());
        proof {
            assert(old(self).router.answered(*old(request), *request, response@));
            assert forall|i: int| 0 <= i < old(self).views().len() && i != index implies
                #[trigger] self.views()[i] == old(self).views()[i] by {
                assert(self.connections@[i] == old(self).connections@[i]);
            }
        }
    }

    /// Queues `400 Bad Request` on the connection at `index`. A connection
    /// that does not await a response is left as it is.
    pub fn reject(&mut self, index: usize)
        requires
            old(self).wf(),
            index < old(self).connections@.len(),
        ensures
            final(self).wf(),
            final(self).socket == old(self).socket,
            final(self).router == old(self).router,
            final(self).changed_only_at(*old(self), index as int),
            final(self).views()[index as int] == (if old(self).views()[index as int].status
                == ConnectionStatus::AwaitingResponse {
                old(self).views()[index as int].responding(bad_request().wire())
            } else {
                old(self).views()[index as int]
            }),
    {
        let response = Response::new(ResponseCode::BadRequest, Protocol::Http1_1);
        let bytes = response.serialize();
        let _ = self.connections[index].begin_response_bytes(bytes.as_slice());
        proof {
            assert forall|i: int| 0 <= i < old(self).views().len() && i != index implies
                #[trigger] self.views()[i] == old(self).views()[i] by {
                assert(self.connections@[i] == old(self).connections@[i]);
            }
        }
    }

    /// Takes in the outcome of one read on the connection at `index`. When
    /// the reading has given a request, the router's answer is queued on the
    /// connection; when it has given bytes that are no request, `400 Bad
    /// Request` is. Returns whether the caller is to read once more.
    pub fn advance_read(&mut self, index: usize, outcome: Result<&[u8], i32>) -> (again: bool)
        requires
            old(self).wf(),
            index < old(self).connections@.len(),
        ensures
            final(self).wf(),
            final(self).socket == old(self).socket,
            final(self).changed_only_at(*old(self), index as int),
            again == !old(self).views()[index as int].read_settles(read_view(outcome)),
            ({
                let before = old(self).views()[index as int];
                let read = before.after_read(read_view(outcome));
                let after = final(self).views()[index as int];
                if before.status == ConnectionStatus::Reading && read.status
                    == ConnectionStatus::AwaitingResponse {
                    answer_queued(old(self).router, final(self).router, read, after)
                } else {
                    after == read && final(self).router == old(self).router
                }
            }),
    {
        let ghost before = self.views()[index as int];
        let step = self.connections[index].read(outcome);
        let ghost read = self.views()[index as int];
        proof {
            assert(read == before.after_read(read_view(outcome)));
            assert forall|i: int| 0 <= i < old(self).views().len() && i != index implies
                #[trigger] self.views()[i] == old(self).views()[i] by {
                assert(self.connections@[i] == old(self).connections@[i]);
            }
        }
        match step {
            None => {
                assert(self.views()[index as int] == read);
                assert(read.status == ConnectionStatus::Reading);
                true
            },
            Some(Ok(request)) => {
                let mut request = request;
                let ghost asked = request;
                self.respond(index, &mut request);
                proof {
                    assert(read.status == ConnectionStatus::AwaitingResponse);
                    assert(exists|response: ResponseView| #[trigger]
                        old(self).router.answered(asked, request, response) && self.views()[index as int]
                            == read.responding(response.wire()));
                    let response = choose|response: ResponseView| #[trigger]
                        old(self).router.answered(asked, request, response) && self.views()[index as int]
                            == read.responding(response.wire());
                    assert(Request::parsed(Ok(asked), read.accumulator));
                    assert(old(self).router.answered(asked, request, response));
                    assert(answer_queued(old(self).router, self.router, read, self.views()[index as int]));
                }
                false
            },
            Some(Err(ConnectionReadError::MalformedRequest(error))) => {
                let ghost reply = Err::<Request, ConnectionReadError>(
                    ConnectionReadError::MalformedRequest(error),
                );
                self.reject(index);
                proof {
                    assert(is_reading_of(reply, read.accumulator));
                    assert(self.views()[index as int] == read.responding(bad_request().wire()));
                    assert(answer_queued(old(self).router, self.router, read, self.views()[index as int]));
                }
                false
            },
            Some(Err(_)) => {
                assert(self.views()[index as int] == read);
                assert(read.status != ConnectionStatus::AwaitingResponse || before.status
                    != ConnectionStatus::Reading);
                false
            },
        }
    }

    /// Takes in the outcome of one write on the connection at `index`.
    /// Returns whether the caller is to write once more.
    pub fn advance_write(&mut self, index: usize, outcome: Result<usize, i32>) -> (again: bool)
        requires
            old(self).wf(),
            index < old(self).connections@.len(),
            old(self).views()[index as int].status == ConnectionStatus::Writing ==> match outcome {
                Ok(count) => count <= old(self).views()[index as int].pending().len(),
                Err(_) => true,
            },
        ensures
            final(self).wf(),
            final(self).socket == old(self).socket,
            final(self).router == old(self).router,
            final(self).changed_only_at(*old(self), index as int),
            final(self).views()[index as int] == old(self).views()[index as int].after_write(
                outcome,
            ),
            again == old(self).views()[index as int].write_reply(outcome).is_none(),
    {
        let step = self.connections[index].write(outcome);
        proof {
            assert forall|i: int| 0 <= i < old(self).views().len() && i != index implies
                #[trigger] self.views()[i] == old(self).views()[i] by {
                assert(self.connections@[i] == old(self).connections@[i]);
            }
        }
        step.is_none()
    }

    /// Removes the dead connections and returns their descriptors, for the
    /// caller to close. The living ones stay, in their order.
    pub fn reap(&mut self) -> (closed: Vec<usize>)
        requires
            old(self).wf(),
        ensures
            final(self).wf(),
            final(self).socket == old(self).socket,
            final(self).router == old(self).router,
            final(self).views() == living(old(self).views()),
            closed@ == dead_descriptors(old(self).views()),
    {
        let mut closed: Vec<usize> = Vec::new();
        let mut i: usize = 0;
        proof {
            assert(self.views().skip(0) =~= self.views());
            assert(self.views().take(0) + living(self.views()) =~= living(self.views()));
        }
        while i < self.connections.len()
            invariant
                i <= self.connections@.len(),
                self.wf(),
                self.socket == old(self).socket,
                self.router == old(self).router,
                self.views().take(i as int) + living(self.views().skip(i as int)) == living(
                    old(self).views(),
                ),
                closed@ + dead_descriptors(self.views().skip(i as int)) == dead_descriptors(
                    old(self).views(),
                ),
            decreases self.connections@.len() - i,
        {
            let ghost views = self.views();
            let ghost rest = views.skip(i as int);
            proof {
                assert(rest[0] == views[i as int]);
                assert(rest.skip(1) =~= views.skip(i + 1));
            }
            if self.connections[i].is_alive() {
                proof {
                    assert(views.take(i + 1) + living(views.skip(i + 1)) =~= views.take(i as int)
                        + living(rest));
                }
                i += 1;
            } else {
                let dead = self.connections.remove(i);
                let ghost before = closed@;
                closed.push(dead.get_file_descriptor());
                proof {
                    let now = self.views();
                    assert(now =~= views.remove(i as int));
                    assert(now.take(i as int) =~= views.take(i as int));
                    assert(now.skip(i as int) =~= views.skip(i + 1));
                    assert(closed@ + dead_descriptors(now.skip(i as int)) =~= before
                        + dead_descriptors(rest));
                }
            }
        }
        proof {
            assert(self.views().skip(i as int) =~= Seq::<ConnectionView>::empty());
            assert(self.views().take(i as int) =~= self.views());
            assert(self.views() + Seq::<ConnectionView>::empty() =~= self.views());
            assert(closed@ + Seq::<usize>::empty() =~= closed@);
        }
        closed
    }
}

} // verus!
