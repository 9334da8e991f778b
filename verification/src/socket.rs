//! The listening socket: what the outcomes of its system calls make of it.

use vstd::prelude::*;
use crate::error_utils::MaybeFatal;
use crate::oscode::{accept_code_is_fatal, is_fatal_accept_code};

verus! {

/// The number of pending connections that the socket is asked to queue.
pub const LISTEN_BACKLOG: usize = 64;

#[derive(Clone, Copy, Debug, PartialEq, Eq, Structural)]
pub enum SocketCreateError {
    /// No descriptor could be had; the code says why.
    DescriptorCreationFailed(i32),
    /// The descriptor could not be bound to the address; the code says why.
    BindingFailed(i32),
}

#[derive(Clone, Copy, Debug, PartialEq, Eq, Structural)]
pub enum SocketListeningError {
    AlreadyListening,
    /// The socket could not be made to listen; the code says why.
    ListeningFailed(i32),
}

#[derive(Clone, Copy, Debug, PartialEq, Eq, Structural)]
pub enum SocketAcceptError {
    NotListening,
    /// No connection was accepted; the code says why.
    AcceptFailed(i32),
}

impl MaybeFatal for SocketCreateError {
    open spec fn fatal(&self) -> bool {
        true
    }

    fn is_fatal(&self) -> (fatal: bool) {
        true
    }
}

impl MaybeFatal for SocketListeningError {
    open spec fn fatal(&self) -> bool {
        *self != Self::AlreadyListening
    }

    fn is_fatal(&self) -> (fatal: bool) {
        match self {
            Self::AlreadyListening => false,
            Self::ListeningFailed(_) => true,
        }
    }
}

impl MaybeFatal for SocketAcceptError {
    open spec fn fatal(&self) -> bool {
        match self {
            Self::NotListening => false,
            Self::AcceptFailed(code) => accept_code_is_fatal(*code),
        }
    }

    fn is_fatal(&self) -> (fatal: bool) {
        match self {
            Self::NotListening => false,
            Self::AcceptFailed(code) => is_fatal_accept_code(*code),
        }
    }
}

/// A listening socket as a mathematical value.
pub struct SocketView {
    pub descriptor: usize,
    pub port: u16,
    pub address: [u8; 4],
    pub listening: bool,
}

impl SocketView {
    /// The socket after an attempt to make it listen had the given outcome.
    pub open spec fn after_listen(self, outcome: Result<usize, i32>) -> SocketView {
        if !self.listening && outcome.is_ok() {
            SocketView { listening: true, ..self }
        } else {
            self
        }
    }

    /// What an attempt to make the socket listen, with the given outcome,
    /// reports.
    pub open spec fn listen_report(self, outcome: Result<usize, i32>) -> Result<
        (),
        SocketListeningError,
    > {
        if self.listening {
            Err(SocketListeningError::AlreadyListening)
        } else {
            match outcome {
                Ok(_) => Ok(()),
                Err(code) => Err(SocketListeningError::ListeningFailed(code)),
            }
        }
    }

    /// The socket after an attempt to accept a connection had the given
    /// outcome: a fatal code ends the listening.
    pub open spec fn after_accept(self, outcome: Result<usize, i32>) -> SocketView {
        match outcome {
            Err(code) if self.listening && accept_code_is_fatal(code) => SocketView {
                listening: false,
                ..self
            },
            _ => self,
        }
    }

    /// What an attempt to accept a connection, with the given outcome,
    /// reports: the new descriptor, or why there is none.
    pub open spec fn accept_report(self, outcome: Result<usize, i32>) -> Result<
        usize,
        SocketAcceptError,
    > {
        if !self.listening {
            Err(SocketAcceptError::NotListening)
        } else {
            match outcome {
                Ok(descriptor) => Ok(descriptor),
                Err(code) => Err(SocketAcceptError::AcceptFailed(code)),
            }
        }
    }
}

pub struct Socket {
    file_descriptor: usize,
    port: u16,
    address: [u8; 4],
    listening: bool,
}

impl View for Socket {
    type V = SocketView;

    closed spec fn view(&self) -> SocketView {
        SocketView {
            descriptor: self.file_descriptor,
            port: self.port,
            address: self.address,
            listening: self.listening,
        }
    }
}

impl Socket {
    /// The socket for `address:port`, from the outcomes of creating a
    /// non-blocking stream descriptor and of binding it. The outcome of the
    /// binding counts only where the descriptor was created. The new socket
    /// does not listen yet.
    pub fn new(
        port: u16,
        address: [u8; 4],
        creation: Result<usize, i32>,
        binding: Result<usize, i32>,
    ) -> (result: Result<Socket, SocketCreateError>)
        ensures
            match result {
                Ok(socket) => creation.is_ok() && binding.is_ok() && socket@ == (SocketView {
                    descriptor: creation.unwrap(),
                    port,
                    address,
                    listening: false,
                }),
                Err(SocketCreateError::DescriptorCreationFailed(code)) => creation == Err::<
                    usize,
                    i32,
                >(code),
                Err(SocketCreateError::BindingFailed(code)) => creation.is_ok() && binding == Err::<
                    usize,
                    i32,
                >(code),
            },
    {
        let file_descriptor: usize = match creation {
            Ok(descriptor) => descriptor,
            Err(code) => {
                return Err(SocketCreateError::DescriptorCreationFailed(code));
            },
        };
        match binding {
            Ok(_) => Ok(Socket { file_descriptor, port, address, listening: false }),
            Err(code) => Err(SocketCreateError::BindingFailed(code)),
        }
    }

    /// Takes in the outcome of asking the operating system to make the
    /// socket listen. A socket that listens already reports
    /// `AlreadyListening` and stays as it is, whatever the outcome says.
    pub fn start_listening(&mut self, outcome: Result<usize, i32>) -> (result: Result<
        (),
        SocketListeningError,
    >)
        ensures
            final(self)@ == old(self)@.after_listen(outcome),
            result == old(self)@.listen_report(outcome),
    {
        if self.listening {
            return Err(SocketListeningError::AlreadyListening);
        }
        match outcome {
            Ok(_) => {
                self.listening = true;
                Ok(())
            },
            Err(code) => Err(SocketListeningError::ListeningFailed(code)),
        }
    }

    /// Takes in the outcome of asking the operating system for a pending
    /// connection. A socket that does not listen reports `NotListening`,
    /// whatever the outcome says. A fatal code ends the listening.
    pub fn accept_connection(&mut self, outcome: Result<usize, i32>) -> (result: Result<
        usize,
        SocketAcceptError,
    >)
        ensures
            final(self)@ == old(self)@.after_accept(outcome),
            result == old(self)@.accept_report(outcome),
    {
        if !self.listening {
            return Err(SocketAcceptError::NotListening);
        }
        match outcome {
            Ok(descriptor) => Ok(descriptor),
            Err(code) => {
                let error = SocketAcceptError::AcceptFailed(code);
                if error.is_fatal() {
                    self.listening = false;
                }
                Err(error)
            },
        }
    }

    pub fn get_file_descriptor(&self) -> (descriptor: usize)
        ensures
            descriptor == self@.descriptor,
    {
        self.file_descriptor
    }

    pub fn get_port(&self) -> (port: u16)
        ensures
            port == self@.port,
    {
        self.port
    }

    pub fn get_address(&self) -> (address: [u8; 4])
        ensures
            address == self@.address,
    {
        self.address
    }

    pub fn is_listening(&self) -> (listening: bool)
        ensures
            listening == self@.listening,
    {
        self.listening
    }
}

/// The socket listens only after an attempt to make it listen succeeded, and
/// a second attempt changes nothing.
pub proof fn lemma_listening_starts_once(socket: SocketView, outcome: Result<usize, i32>)
    ensures
        socket.after_listen(outcome).listening == (socket.listening || outcome.is_ok()),
        socket.listening ==> socket.after_listen(outcome) == socket && socket.listen_report(outcome)
            == Err::<(), SocketListeningError>(SocketListeningError::AlreadyListening),
{
}

/// Accepting ends the listening exactly on a fatal failure, and never
/// starts it.
pub proof fn lemma_accept_keeps_listening(socket: SocketView, outcome: Result<usize, i32>)
    ensures
        socket.after_accept(outcome).listening == (socket.listening && !(outcome matches Err(code)
            && accept_code_is_fatal(code))),
        socket.accept_report(outcome) matches Err(error) ==> (error.fatal()
            <==> socket.listening && !socket.after_accept(outcome).listening),
{
}

} // verus!
