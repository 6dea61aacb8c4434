//! The exchange that carries out a plan of physical reads.
//!
//! Each physical read takes two commands: an authenticate command for the
//! block that the read starts at, then the read command itself. The engine
//! says which command is sent next and judges each response. It performs no
//! transport of its own: the caller sends the pending command and hands the
//! answer back. Any failure ends the exchange at once, and the bytes read up
//! to then are not handed out.

use vstd::prelude::*;
use crate::apdu::{
    authenticate_command,
    authenticate_command_spec,
    check_authentication,
    extract_payload,
    payload,
    read_command,
    read_command_spec,
    succeeded,
};
use crate::card::classify::TechnologyProfile;
use crate::card::plan::PhysicalRead;
use crate::errors::{ReaderError, TransportError};

verus! {

/// The state of an exchange that waits for the answer to a command.
pub struct ReadState {
    /// Class byte of the read commands.
    pub command_class: u8,
    /// Instruction byte of the read commands.
    pub read_instruction: u8,
    /// Key slot that every authenticate command names.
    pub key_type: u8,
    /// The physical reads to carry out, in order.
    pub plan: Seq<PhysicalRead>,
    /// Position in the plan of the read in progress.
    pub index: int,
    /// Whether the block of the read in progress has been authenticated, so
    /// that the pending command is the read command.
    pub authenticated: bool,
    /// Payload of the reads completed so far, in order.
    pub data: Seq<u8>,
}

/// What the exchange comes to after a response.
pub enum ReadOutcome {
    /// It goes on from this state; the state's pending command is sent next.
    Transmit(ReadState),
    /// It is complete and has read these bytes.
    Done(Seq<u8>),
    /// It has failed.
    Failed(ReaderError),
}

impl ReadState {
    /// A state is well-formed when a read of the plan is in progress.
    pub open spec fn wf(self) -> bool {
        0 <= self.index < self.plan.len()
    }

    /// The read in progress.
    pub open spec fn current(self) -> PhysicalRead {
        self.plan[self.index]
    }

    /// The command whose answer the exchange waits for: the authenticate
    /// command for the current block until that block is authenticated, the
    /// read command after.
    pub open spec fn pending_command(self) -> Seq<u8> {
        if self.authenticated {
            read_command_spec(
                self.command_class,
                self.read_instruction,
                self.current().block,
                self.current().length,
            )
        } else {
            authenticate_command_spec(self.current().block, self.key_type)
        }
    }

    /// Number of commands still to be answered if every one succeeds.
    pub open spec fn remaining_exchanges(self) -> int {
        2 * (self.plan.len() - self.index) - if self.authenticated {
            1int
        } else {
            0int
        }
    }

    /// How an exchange over `plan` begins: with the authenticate command for
    /// its first read, or complete at once where the plan is empty.
    pub open spec fn begin(
        command_class: u8,
        read_instruction: u8,
        key_type: u8,
        plan: Seq<PhysicalRead>,
    ) -> ReadOutcome {
        if plan.len() == 0 {
            ReadOutcome::Done(Seq::empty())
        } else {
            ReadOutcome::Transmit(
                ReadState {
                    command_class,
                    read_instruction,
                    key_type,
                    plan,
                    index: 0,
                    authenticated: false,
                    data: Seq::empty(),
                },
            )
        }
    }

    /// What the exchange comes to when the pending command is answered with
    /// `response`.
    ///
    /// A transport failure is passed on as it is. An authenticate response
    /// that is not a success fails the authentication, and the read command
    /// for that block is never sent. A read response that is not a success
    /// fails the read. A successful read response adds its payload to the
    /// bytes read; the exchange then goes on to the next read of the plan
    /// and is complete after the last.
    pub open spec fn step(self, response: Result<Seq<u8>, TransportError>) -> ReadOutcome {
        match response {
            Err(e) => ReadOutcome::Failed(ReaderError::TransportError(e)),
            Ok(bytes) => {
                if !self.authenticated {
                    if succeeded(bytes) {
                        ReadOutcome::Transmit(ReadState { authenticated: true, ..self })
                    } else {
                        ReadOutcome::Failed(ReaderError::AuthenticationFailed)
                    }
                } else if !succeeded(bytes) {
                    ReadOutcome::Failed(ReaderError::ReadFailed)
                } else if self.index + 1 < self.plan.len() {
                    ReadOutcome::Transmit(
                        ReadState {
                            index: self.index + 1,
                            authenticated: false,
                            data: self.data + payload(bytes),
                            ..self
                        },
                    )
                } else {
                    ReadOutcome::Done(self.data + payload(bytes))
                }
            },
        }
    }
}

/// The transport's answer as the model sees it.
pub open spec fn response_view(response: Result<Vec<u8>, TransportError>) -> Result<
    Seq<u8>,
    TransportError,
> {
    match response {
        Ok(bytes) => Ok(bytes@),
        Err(e) => Err(e),
    }
}

/// An exchange in progress.
pub struct BlockReader {
    command_class: u8,
    read_instruction: u8,
    key_type: u8,
    plan: Vec<PhysicalRead>,
    index: usize,
    authenticated: bool,
    data: Vec<u8>,
}

impl View for BlockReader {
    type V = ReadState;

    closed spec fn view(&self) -> ReadState {
        ReadState {
            command_class: self.command_class,
            read_instruction: self.read_instruction,
            key_type: self.key_type,
            plan: self.plan@,
            index: self.index as int,
            authenticated: self.authenticated,
            data: self.data@,
        }
    }
}

/// One step of an exchange: what the caller does next.
pub enum ReadStep {
    /// Send `command` and hand its answer to `reader`.
    Transmit { reader: BlockReader, command: Vec<u8> },
    /// The exchange is complete; these are the bytes read.
    Done(Vec<u8>),
    /// The exchange has failed.
    Failed(ReaderError),
}

impl View for ReadStep {
    type V = ReadOutcome;

    open spec fn view(&self) -> ReadOutcome {
        match self {
            ReadStep::Transmit { reader, command } => ReadOutcome::Transmit(reader@),
            ReadStep::Done(data) => ReadOutcome::Done(data@),
            ReadStep::Failed(e) => ReadOutcome::Failed(*e),
        }
    }
}

impl ReadStep {
    /// A step that asks for a transmission carries a well-formed state and
    /// exactly the command that this state waits on.
    pub open spec fn wf(self) -> bool {
        match self {
            ReadStep::Transmit { reader, command } => reader@.wf() && command@
                == reader@.pending_command(),
            _ => true,
        }
    }
}

impl BlockReader {
    #[verifier::type_invariant]
    spec fn inv(self) -> bool {
        self.index < self.plan.len()
    }

    /// Builds the command that a state waits on.
    fn command_for(
        command_class: u8,
        read_instruction: u8,
        key_type: u8,
        read: PhysicalRead,
        authenticated: bool,
    ) -> (command: Vec<u8>)
        ensures
            command@ == if authenticated {
                read_command_spec(command_class, read_instruction, read.block, read.length)
            } else {
                authenticate_command_spec(read.block, key_type)
            },
    {
        if authenticated {
            read_command(command_class, read_instruction, read.block, read.length)
        } else {
            authenticate_command(read.block, key_type)
        }
    }

    /// Begins the exchange that carries out `plan` on a card of the given
    /// profile, authenticating each block with the key slot `key_type`.
    pub fn begin(profile: &TechnologyProfile, key_type: u8, plan: Vec<PhysicalRead>) -> (step:
        ReadStep)
        ensures
            step@ == ReadState::begin(
                profile.command_class,
                profile.read_instruction,
                key_type,
                plan@,
            ),
            step.wf(),
    {
        if plan.len() == 0 {
            let data: Vec<u8> = Vec::new();
            ReadStep::Done(data)
        } else {
            let command = Self::command_for(
                profile.command_class,
                profile.read_instruction,
                key_type,
                plan[0],
                false,
            );
            let reader = BlockReader {
                command_class: profile.command_class,
                read_instruction: profile.read_instruction,
                key_type,
                plan,
                index: 0,
                authenticated: false,
                data: Vec::new(),
            };
            ReadStep::Transmit { reader, command }
        }
    }

    /// Takes in the answer to the pending command and says what comes next.
    pub fn advance(self, response: Result<Vec<u8>, TransportError>) -> (step: ReadStep)
        ensures
            self@.wf(),
            step@ == self@.step(response_view(response)),
            step.wf(),
    {
        proof {
            use_type_invariant(&self);
        }
        let BlockReader { command_class, read_instruction, key_type, plan, index, authenticated, data } =
            self;
        let bytes = match response {
            Ok(bytes) => bytes,
            Err(e) => {
                return ReadStep::Failed(ReaderError::TransportError(e));
            },
        };
        if !authenticated {
            match check_authentication(bytes.as_slice()) {
                Ok(()) => {
                    let command = Self::command_for(
                        command_class,
                        read_instruction,
                        key_type,
                        plan[index],
                        true,
                    );
                    let reader = BlockReader {
                        command_class,
                        read_instruction,
                        key_type,
                        plan,
                        index,
                        authenticated: true,
                        data,
                    };
                    ReadStep::Transmit { reader, command }
                },
                Err(e) => ReadStep::Failed(e),
            }
        } else {
            match extract_payload(bytes.as_slice()) {
                Ok(chunk) => {
                    let mut data = data;
                    data.extend_from_slice(chunk.as_slice());
                    assert(data@ == self@.data + payload(bytes@));
                    if index + 1 < plan.len() {
                        let command = Self::command_for(
                            command_class,
                            read_instruction,
                            key_type,
                            plan[index + 1],
                            false,
                        );
                        let reader = BlockReader {
                            command_class,
                            read_instruction,
                            key_type,
                            plan,
                            index: index + 1,
                            authenticated: false,
                            data,
                        };
                        ReadStep::Transmit { reader, command }
                    } else {
                        ReadStep::Done(data)
                    }
                },
                Err(e) => ReadStep::Failed(e),
            }
        }
    }
}

/// No response that lacks the trailing bytes `0x90 0x00` moves an exchange
/// on: an authenticate response of that kind fails the authentication, a read
/// response of that kind fails the read. A response of fewer than two bytes
/// is of that kind, and none of its bytes is looked at.
pub proof fn lemma_status_word_gate(state: ReadState, response: Seq<u8>)
    requires
        !(response.len() >= 2 && response[response.len() - 2] == 0x90 && response[response.len()
            - 1] == 0x00),
    ensures
        !state.authenticated ==> state.step(Ok(response)) == ReadOutcome::Failed(
            ReaderError::AuthenticationFailed,
        ),
        state.authenticated ==> state.step(Ok(response)) == ReadOutcome::Failed(
            ReaderError::ReadFailed,
        ),
{
}

/// A step from a well-formed state leads to a well-formed state that is one
/// exchange nearer to the end.
pub proof fn lemma_step_makes_progress(state: ReadState, response: Result<Seq<u8>, TransportError>)
    requires
        state.wf(),
    ensures
        state.step(response) matches ReadOutcome::Transmit(next) ==> next.wf()
            && next.remaining_exchanges() == state.remaining_exchanges() - 1
            && next.remaining_exchanges() >= 1 && next.plan == state.plan,
{
}

} // verus!
