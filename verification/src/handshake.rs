use crate::cipher::{CipherContext, KEY_LEN};
use crate::error::StcpError;
use crate::frame::{
    key_bits_supported, lemma_public_key_len, public_key_len, spec_public_key_len,
    spec_wrapped_key_len, wrapped_key_len, MAX_KEY_BITS, MIN_KEY_BITS,
};
use crate::rsa_calls::{rsa_generated_key, rsa_public_key_of, wraps};
use crate::server::{
    client_kex, is_public_key, is_usable_public_key, lemma_wrapped_key_unwraps,
    unwrap_session_key, unwrapped, StcpServer,
};
use vstd::prelude::*;
use vstd::slice::slice_to_vec;

verus! {

/// What a handshake asks of the code that drives the transport.
pub enum Action {
    /// Write all of these bytes, then report `sent`.
    Send(Vec<u8>),
    /// Read at least one and at most this many bytes, then report them with
    /// `received`.
    Receive(usize),
    /// Take the private key out of its guard and hand it to `private_key`.
    Unwrap,
    /// The handshake is over: this is the connection's cipher context.
    Established(CipherContext),
    /// The handshake is over: abandon the connection.
    Abort(StcpError),
}

/// What an action is, buffers and contexts taken as byte sequences.
pub ghost enum ActionView {
    Send(Seq<u8>),
    Receive(nat),
    Unwrap,
    Established(Seq<u8>),
    Abort(StcpError),
}

impl View for Action {
    type V = ActionView;

    open spec fn view(&self) -> ActionView {
        match self {
            Action::Send(bytes) => ActionView::Send(bytes@),
            Action::Receive(n) => ActionView::Receive(*n as nat),
            Action::Unwrap => ActionView::Unwrap,
            Action::Established(ctx) => ActionView::Established(ctx@),
            Action::Abort(e) => ActionView::Abort(*e),
        }
    }
}

/// What becomes of `have` bytes when `chunk` arrives and `want` bytes are
/// awaited in all: the longer buffer, or `None` where the chunk is empty, as
/// at the end of the stream, or longer than what is still awaited.
pub open spec fn absorbed(have: Seq<u8>, chunk: Seq<u8>, want: nat) -> Option<Seq<u8>> {
    if 0 < chunk.len() && have.len() + chunk.len() <= want {
        Some(have + chunk)
    } else {
        None
    }
}

/// The steps of the listening side, in their order; `Failed` can follow any
/// of them.
#[derive(Clone, Copy, Debug, PartialEq, Eq, Structural)]
pub enum ResponderPhase {
    PublishKey,
    ReceiveWrappedKey,
    Unwrap,
    Established,
    Failed,
}

/// What a responder is: the size of its key, its step, and what it has
/// received of the wrapped key.
pub ghost struct ResponderView {
    pub bits: nat,
    pub phase: ResponderPhase,
    pub received: Seq<u8>,
}

/// The listening side's handshake of one connection.
pub struct Responder {
    bits: usize,
    phase: ResponderPhase,
    received: Vec<u8>,
}

/// The responder after a failure, and the order to abandon the connection.
pub open spec fn responder_failed(s: ResponderView, e: StcpError) -> (ResponderView, ActionView) {
    (
        ResponderView { bits: s.bits, phase: ResponderPhase::Failed, received: Seq::empty() },
        ActionView::Abort(e),
    )
}

/// The responder's step once its public key is written: it awaits a whole
/// wrapped key.
pub open spec fn responder_on_sent(s: ResponderView) -> (ResponderView, ActionView) {
    if s.phase is PublishKey {
        (
            ResponderView {
                bits: s.bits,
                phase: ResponderPhase::ReceiveWrappedKey,
                received: Seq::empty(),
            },
            ActionView::Receive(spec_wrapped_key_len(s.bits)),
        )
    } else {
        responder_failed(s, StcpError::Io)
    }
}

/// The responder's step on bytes from the stream: it keeps them, and asks
/// for the rest or, with the wrapped key whole, for the private key.
pub open spec fn responder_on_received(s: ResponderView, chunk: Seq<u8>) -> (
    ResponderView,
    ActionView,
) {
    let want = spec_wrapped_key_len(s.bits);
    if s.phase is ReceiveWrappedKey {
        match absorbed(s.received, chunk, want) {
            Some(all) => if all.len() == want {
                (
                    ResponderView { bits: s.bits, phase: ResponderPhase::Unwrap, received: all },
                    ActionView::Unwrap,
                )
            } else {
                (
                    ResponderView { bits: s.bits, phase: s.phase, received: all },
                    ActionView::Receive((want - all.len()) as nat),
                )
            },
            None => responder_failed(s, StcpError::Io),
        }
    } else {
        responder_failed(s, StcpError::Io)
    }
}

/// The responder's step on the private key: it unwraps the session key and
/// establishes the context, or fails as the unwrapping does.
pub open spec fn responder_on_private_key(s: ResponderView, private_key: Seq<u8>) -> (
    ResponderView,
    ActionView,
) {
    if s.phase is Unwrap {
        match unwrapped(s.bits, private_key, s.received) {
            Ok(key) => (
                ResponderView {
                    bits: s.bits,
                    phase: ResponderPhase::Established,
                    received: Seq::empty(),
                },
                ActionView::Established(key),
            ),
            Err(e) => responder_failed(s, e),
        }
    } else {
        responder_failed(s, StcpError::Io)
    }
}

impl View for Responder {
    type V = ResponderView;

    closed spec fn view(&self) -> ResponderView {
        ResponderView { bits: self.bits as nat, phase: self.phase, received: self.received@ }
    }
}

impl Responder {
    #[verifier::type_invariant]
    spec fn well_formed(&self) -> bool {
        let want = spec_wrapped_key_len(self.bits as nat);
        &&& key_bits_supported(self.bits as nat)
        &&& match self.phase {
            ResponderPhase::ReceiveWrappedKey => self.received@.len() < want,
            ResponderPhase::Unwrap => self.received@.len() == want,
            _ => self.received@.len() == 0,
        }
    }

    /// A responder for one connection of `server`, and the order to send the
    /// server's public key.
    pub fn start(server: &StcpServer) -> (out: (Responder, Action))
        ensures
            out.0@ == (ResponderView {
                bits: server.spec_bits(),
                phase: ResponderPhase::PublishKey,
                received: Seq::empty(),
            }),
            out.1@ == ActionView::Send(server.spec_public_key()),
            is_usable_public_key(server.spec_bits(), server.spec_public_key()),
            server.spec_public_key().len() == spec_public_key_len(server.spec_bits()),
    {
        let bits = server.bits();
        let public_key = slice_to_vec(server.public_key().as_slice());
        (
            Responder { bits, phase: ResponderPhase::PublishKey, received: Vec::new() },
            Action::Send(public_key),
        )
    }

    fn fail(self, e: StcpError) -> (out: (Responder, Action))
        ensures
            (out.0@, out.1@) == responder_failed(self@, e),
    {
        proof {
            use_type_invariant(&self);
        }
        (
            Responder { bits: self.bits, phase: ResponderPhase::Failed, received: Vec::new() },
            Action::Abort(e),
        )
    }

    /// The step once the public key is written.
    pub fn sent(self) -> (out: (Responder, Action))
        ensures
            (out.0@, out.1@) == responder_on_sent(self@),
    {
        proof {
            use_type_invariant(&self);
        }
        match self.phase {
            ResponderPhase::PublishKey => {
                let want = wrapped_key_len(self.bits);
                (
                    Responder {
                        bits: self.bits,
                        phase: ResponderPhase::ReceiveWrappedKey,
                        received: Vec::new(),
                    },
                    Action::Receive(want),
                )
            },
            _ => self.fail(StcpError::Io),
        }
    }

    /// The step on bytes that the stream delivered; an empty chunk stands for
    /// the end of the stream.
    pub fn received(self, chunk: &[u8]) -> (out: (Responder, Action))
        ensures
            (out.0@, out.1@) == responder_on_received(self@, chunk@),
    {
        proof {
            use_type_invariant(&self);
        }
        match self.phase {
            ResponderPhase::ReceiveWrappedKey => {
                let want = wrapped_key_len(self.bits);
                if chunk.len() == 0 || chunk.len() > want - self.received.len() {
                    return self.fail(StcpError::Io);
                }
                let bits = self.bits;
                let mut received = self.received;
                let mut more = slice_to_vec(chunk);
                received.append(&mut more);
                if received.len() == want {
                    (Responder { bits, phase: ResponderPhase::Unwrap, received }, Action::Unwrap)
                } else {
                    let rest = want - received.len();
                    (
                        Responder { bits, phase: ResponderPhase::ReceiveWrappedKey, received },
                        Action::Receive(rest),
                    )
                }
            },
            _ => self.fail(StcpError::Io),
        }
    }

    /// The step on a transport that failed or was closed: the handshake
    /// fails with `Io`, whatever its step was.
    pub fn closed(self) -> (out: (Responder, Action))
        ensures
            (out.0@, out.1@) == responder_failed(self@, StcpError::Io),
    {
        self.fail(StcpError::Io)
    }

    /// The step on the private key, which is read and not kept.
    pub fn private_key(self, private_key: &[u8]) -> (out: (Responder, Action))
        ensures
            (out.0@, out.1@) == responder_on_private_key(self@, private_key@),
    {
        proof {
            use_type_invariant(&self);
        }
        match self.phase {
            ResponderPhase::Unwrap => {
                match unwrap_session_key(self.bits, private_key, self.received.as_slice()) {
                    Ok(ctx) => (
                        Responder {
                            bits: self.bits,
                            phase: ResponderPhase::Established,
                            received: Vec::new(),
                        },
                        Action::Established(ctx),
                    ),
                    Err(e) => self.fail(e),
                }
            },
            _ => self.fail(StcpError::Io),
        }
    }

    /// The responder's step.
    pub fn phase(&self) -> (phase: ResponderPhase)
        ensures
            phase == self@.phase,
    {
        self.phase
    }
}

/// The steps of the connecting side, in their order; `Failed` can follow
/// any of them. The session key is drawn and wrapped on the way from
/// `ReceiveKey` to `Send`.
#[derive(Clone, Copy, Debug, PartialEq, Eq, Structural)]
pub enum InitiatorPhase {
    ReceiveKey,
    Send,
    Established,
    Failed,
}

/// What an initiator is: the size of the key that it expects, its step, what
/// it has received of the public key, and the session key that it has
/// wrapped and not yet handed out.
pub ghost struct InitiatorView {
    pub bits: nat,
    pub phase: InitiatorPhase,
    pub received: Seq<u8>,
    pub session: Option<Seq<u8>>,
}

/// The connecting side's handshake of one connection.
pub struct Initiator {
    bits: usize,
    phase: InitiatorPhase,
    received: Vec<u8>,
    session: Option<CipherContext>,
}

/// The initiator after a failure, and the order to abandon the connection.
pub open spec fn initiator_failed(s: InitiatorView, e: StcpError) -> (InitiatorView, ActionView) {
    (
        InitiatorView {
            bits: s.bits,
            phase: InitiatorPhase::Failed,
            received: Seq::empty(),
            session: None,
        },
        ActionView::Abort(e),
    )
}

/// The initiator's first step for a key of `bits` bits: it awaits a whole
/// public key of that size, or fails with `Decode` where no key has it.
pub open spec fn initiator_start(bits: nat) -> (InitiatorView, ActionView) {
    let s = InitiatorView {
        bits,
        phase: InitiatorPhase::ReceiveKey,
        received: Seq::empty(),
        session: None,
    };
    if key_bits_supported(bits) {
        (s, ActionView::Receive(spec_public_key_len(bits)))
    } else {
        initiator_failed(s, StcpError::Decode)
    }
}

/// The initiator with a session key wrapped, and the order to send the
/// wrapped key.
pub open spec fn initiator_wrapped(s: InitiatorView, wrapped: Seq<u8>, key: Seq<u8>) -> (
    InitiatorView,
    ActionView,
) {
    (
        InitiatorView {
            bits: s.bits,
            phase: InitiatorPhase::Send,
            received: Seq::empty(),
            session: Some(key),
        },
        ActionView::Send(wrapped),
    )
}

/// Whether `next` can be the initiator's step on bytes from the stream: it
/// keeps them and asks for the rest. With the public key whole it checks the
/// key: it fails with `Decode` on one that is not of its size and with
/// `Encrypt` on one whose exponent RSA refuses, and for every other it
/// orders a wrap of a 32-byte session key for that public key to be sent,
/// of the one length that wrapped keys of its size have.
pub open spec fn initiator_on_received(
    s: InitiatorView,
    chunk: Seq<u8>,
    next: (InitiatorView, ActionView),
) -> bool {
    let want = spec_public_key_len(s.bits);
    if s.phase is ReceiveKey {
        match absorbed(s.received, chunk, want) {
            Some(all) => if all.len() < want {
                next == (
                    InitiatorView {
                        bits: s.bits,
                        phase: s.phase,
                        received: all,
                        session: None,
                    },
                    ActionView::Receive((want - all.len()) as nat),
                )
            } else if is_usable_public_key(s.bits, all) {
                exists|wrapped: Seq<u8>, key: Seq<u8>|
                    {
                        &&& #[trigger] initiator_wrapped(s, wrapped, key) == next
                        &&& wrapped.len() == spec_wrapped_key_len(s.bits)
                        &&& key.len() == KEY_LEN
                        &&& wraps(all, key, wrapped)
                    }
            } else if is_public_key(s.bits, all) {
                next == initiator_failed(s, StcpError::Encrypt)
            } else {
                next == initiator_failed(s, StcpError::Decode)
            },
            None => next == initiator_failed(s, StcpError::Io),
        }
    } else {
        next == initiator_failed(s, StcpError::Io)
    }
}

/// The initiator's step once the wrapped key is written: the handshake is
/// over, and the context of the session key is handed out.
pub open spec fn initiator_on_sent(s: InitiatorView) -> (InitiatorView, ActionView) {
    match s.session {
        Some(key) if s.phase is Send => (
            InitiatorView {
                bits: s.bits,
                phase: InitiatorPhase::Established,
                received: Seq::empty(),
                session: None,
            },
            ActionView::Established(key),
        ),
        _ => initiator_failed(s, StcpError::Io),
    }
}

/// Fixed framing: whatever public key an initiator receives, it never orders
/// anything to be sent but a wrapped key of the one length that its key size
/// has.
pub proof fn lemma_initiator_sends_fixed_length(
    s: InitiatorView,
    chunk: Seq<u8>,
    next: (InitiatorView, ActionView),
)
    requires
        initiator_on_received(s, chunk, next),
        next.1 is Send,
    ensures
        next.1->Send_0.len() == spec_wrapped_key_len(s.bits),
        next.0.session is Some,
        next.0.session->0.len() == KEY_LEN,
{
}

/// Mutual usability: where an initiator has received the public half of a
/// generated key pair and ordered its answer to be sent, a responder of the
/// same key size that holds this answer and is handed the pair establishes
/// the initiator's own session key.
pub proof fn lemma_mutual_usability(
    private_key: Seq<u8>,
    i: InitiatorView,
    chunk: Seq<u8>,
    next: (InitiatorView, ActionView),
    r: ResponderView,
)
    requires
        rsa_generated_key(private_key),
        i.phase is ReceiveKey,
        rsa_public_key_of(private_key) == Some(i.received + chunk),
        initiator_on_received(i, chunk, next),
        next.1 is Send,
        r.bits == i.bits,
        r.phase is Unwrap,
        r.received == next.1->Send_0,
    ensures
        next.0.session is Some,
        responder_on_private_key(r, private_key).1 == ActionView::Established(
            next.0.session->0,
        ),
        responder_on_private_key(r, private_key).0.phase is Established,
{
    let want = spec_public_key_len(i.bits);
    let all = i.received + chunk;
    assert(absorbed(i.received, chunk, want) == Some(all));
    let (wrapped, key) = choose|wrapped: Seq<u8>, key: Seq<u8>|
        {
            &&& #[trigger] initiator_wrapped(i, wrapped, key) == next
            &&& wrapped.len() == spec_wrapped_key_len(i.bits)
            &&& key.len() == KEY_LEN
            &&& wraps(all, key, wrapped)
        };
    lemma_wrapped_key_unwraps(r.bits, private_key, all, key, wrapped);
}

/// An initiator that receives, whole, a public key for which a session key
/// can be wrapped never fails: it orders the wrapped key to be sent.
pub proof fn lemma_initiator_accepts_usable_key(
    i: InitiatorView,
    chunk: Seq<u8>,
    next: (InitiatorView, ActionView),
)
    requires
        i.phase is ReceiveKey,
        chunk.len() > 0,
        is_usable_public_key(i.bits, i.received + chunk),
        initiator_on_received(i, chunk, next),
    ensures
        next.1 is Send,
        next.0.phase is Send,
{
    lemma_public_key_len(i.received + chunk);
}

/// Whatever reaches a responder as a private key, its step ends the
/// handshake: in a context for a 32-byte key, or in `Io` or `Decrypt`.
pub proof fn lemma_responder_unwrap_outcomes(s: ResponderView, private_key: Seq<u8>)
    ensures
        match responder_on_private_key(s, private_key).1 {
            ActionView::Established(key) => key.len() == KEY_LEN
                && responder_on_private_key(s, private_key).0.phase is Established,
            ActionView::Abort(e) => (e == StcpError::Io || e == StcpError::Decrypt)
                && responder_on_private_key(s, private_key).0.phase is Failed,
            _ => false,
        },
{
}

impl View for Initiator {
    type V = InitiatorView;

    closed spec fn view(&self) -> InitiatorView {
        InitiatorView {
            bits: self.bits as nat,
            phase: self.phase,
            received: self.received@,
            session: match self.session {
                Some(ctx) => Some(ctx@),
                None => None,
            },
        }
    }
}

impl Initiator {
    #[verifier::type_invariant]
    spec fn well_formed(&self) -> bool {
        &&& self.phase is Failed || key_bits_supported(self.bits as nat)
        &&& self.phase is Send <==> self.session is Some
        &&& if self.phase is ReceiveKey {
            self.received@.len() < spec_public_key_len(self.bits as nat)
        } else {
            self.received@.len() == 0
        }
    }

    /// An initiator that expects a key of `bits` bits, and its first order.
    pub fn start(bits: usize) -> (out: (Initiator, Action))
        ensures
            (out.0@, out.1@) == initiator_start(bits as nat),
    {
        let fresh = Initiator {
            bits,
            phase: InitiatorPhase::Failed,
            received: Vec::new(),
            session: None,
        };
        if bits < MIN_KEY_BITS || bits > MAX_KEY_BITS {
            (fresh, Action::Abort(StcpError::Decode))
        } else {
            (
                Initiator {
                    bits,
                    phase: InitiatorPhase::ReceiveKey,
                    received: Vec::new(),
                    session: None,
                },
                Action::Receive(public_key_len(bits)),
            )
        }
    }

    fn fail(self, e: StcpError) -> (out: (Initiator, Action))
        ensures
            (out.0@, out.1@) == initiator_failed(self@, e),
    {
        (
            Initiator {
                bits: self.bits,
                phase: InitiatorPhase::Failed,
                received: Vec::new(),
                session: None,
            },
            Action::Abort(e),
        )
    }

    /// The step on bytes that the stream delivered; an empty chunk stands for
    /// the end of the stream.
    pub fn received(self, chunk: &[u8]) -> (out: (Initiator, Action))
        ensures
            initiator_on_received(self@, chunk@, (out.0@, out.1@)),
    {
        proof {
            use_type_invariant(&self);
        }
        match self.phase {
            InitiatorPhase::ReceiveKey => {
                let want = public_key_len(self.bits);
                if chunk.len() == 0 || chunk.len() > want - self.received.len() {
                    return self.fail(StcpError::Io);
                }
                let ghost before = self@;
                let bits = self.bits;
                let mut received = self.received;
                let mut more = slice_to_vec(chunk);
                received.append(&mut more);
                if received.len() < want {
                    let rest = want - received.len();
                    return (
                        Initiator {
                            bits,
                            phase: InitiatorPhase::ReceiveKey,
                            received,
                            session: None,
                        },
                        Action::Receive(rest),
                    );
                }
                match client_kex(bits, received.as_slice()) {
                    Ok((wrapped, ctx)) => {
                        proof {
                            ctx.lemma_key_len();
                            assert(initiator_wrapped(before, wrapped@, ctx@) == (
                                InitiatorView {
                                    bits: before.bits,
                                    phase: InitiatorPhase::Send,
                                    received: Seq::empty(),
                                    session: Some(ctx@),
                                },
                                ActionView::Send(wrapped@),
                            ));
                        }
                        (
                            Initiator {
                                bits,
                                phase: InitiatorPhase::Send,
                                received: Vec::new(),
                                session: Some(ctx),
                            },
                            Action::Send(wrapped),
                        )
                    },
                    Err(e) => (
                        Initiator {
                            bits,
                            phase: InitiatorPhase::Failed,
                            received: Vec::new(),
                            session: None,
                        },
                        Action::Abort(e),
                    ),
                }
            },
            _ => self.fail(StcpError::Io),
        }
    }

    /// The step once the wrapped key is written.
    pub fn sent(self) -> (out: (Initiator, Action))
        ensures
            (out.0@, out.1@) == initiator_on_sent(self@),
    {
        proof {
            use_type_invariant(&self);
        }
        let Initiator { bits, phase, received, session } = self;
        match session {
            Some(ctx) => (
                Initiator {
                    bits,
                    phase: InitiatorPhase::Established,
                    received: Vec::new(),
                    session: None,
                },
                Action::Established(ctx),
            ),
            None => (
                Initiator {
                    bits,
                    phase: InitiatorPhase::Failed,
                    received: Vec::new(),
                    session: None,
                },
                Action::Abort(StcpError::Io),
            ),
        }
    }

    /// The step on a transport that failed or was closed: the handshake
    /// fails with `Io`, whatever its step was.
    pub fn closed(self) -> (out: (Initiator, Action))
        ensures
            (out.0@, out.1@) == initiator_failed(self@, StcpError::Io),
    {
        self.fail(StcpError::Io)
    }

    /// The initiator's step.
    pub fn phase(&self) -> (phase: InitiatorPhase)
        ensures
            phase == self@.phase,
    {
        self.phase
    }
}

} // verus!
