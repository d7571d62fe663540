//! What the echo server decides while it relays a bidirectional stream:
//! which failure in an error's chain of causes is an I/O error, and how each
//! incoming item is answered.

use vstd::prelude::*;

verus! {

/// An I/O error as far as the server tells them apart: the peer hung up
/// (`ErrorKind::BrokenPipe`), or anything else.
#[derive(PartialEq, Eq, Structural, Clone, Copy, Debug)]
pub enum IoFailure {
    BrokenPipe,
    Other,
}

/// One link in the chain of causes of a gRPC status, as seen from the server.
#[derive(PartialEq, Eq, Structural, Clone, Copy, Debug)]
pub enum ErrorLink {
    /// The link is an `std::io::Error` of this kind.
    Io(IoFailure),
    /// The link is an HTTP/2 error, which may carry an I/O error of its own
    /// (`h2::Error` hides it from `source()`).
    H2(Option<IoFailure>),
    /// Any other error.
    Other,
}

/// The I/O error that a link stands for, if any.
pub open spec fn link_io(link: ErrorLink) -> Option<IoFailure> {
    match link {
        ErrorLink::Io(kind) => Some(kind),
        ErrorLink::H2(io) => io,
        ErrorLink::Other => None,
    }
}

/// The first I/O error met walking the chain from the status down its causes.
pub open spec fn first_io_error(chain: Seq<ErrorLink>) -> Option<IoFailure>
    decreases chain.len(),
{
    if chain.len() == 0 {
        None
    } else if link_io(chain[0]) is Some {
        link_io(chain[0])
    } else {
        first_io_error(chain.drop_first())
    }
}

/// The link carries no I/O error: it is some other error, or an HTTP/2 error
/// without one.
pub open spec fn no_io(link: ErrorLink) -> bool {
    link == ErrorLink::Other || link == ErrorLink::H2(None)
}

/// The walk answers the kind of the earliest link that carries an I/O error,
/// whether that link is an I/O error itself or an HTTP/2 error holding one;
/// where no link carries one it answers nothing.
pub proof fn lemma_earliest_io_error_is_found(chain: Seq<ErrorLink>)
    ensures
        forall|i: int, k: IoFailure|
            0 <= i < chain.len() && chain[i] == ErrorLink::Io(k) && (forall|j: int|
                0 <= j < i ==> no_io(#[trigger] chain[j])) ==> first_io_error(chain) == Some(k),
        forall|i: int, k: IoFailure|
            0 <= i < chain.len() && chain[i] == ErrorLink::H2(Some(k)) && (forall|j: int|
                0 <= j < i ==> no_io(#[trigger] chain[j])) ==> first_io_error(chain) == Some(k),
        (forall|j: int| 0 <= j < chain.len() ==> no_io(#[trigger] chain[j])) ==> first_io_error(
            chain,
        ) is None,
    decreases chain.len(),
{
    if chain.len() > 0 {
        let rest = chain.drop_first();
        lemma_earliest_io_error_is_found(rest);
        assert forall|i: int, k: IoFailure|
            0 <= i < chain.len() && (chain[i] == ErrorLink::Io(k) || chain[i] == ErrorLink::H2(Some(k)))
                && (forall|j: int| 0 <= j < i ==> no_io(#[trigger] chain[j]))
            implies first_io_error(chain) == Some(k) by {
            if i > 0 {
                assert(no_io(chain[0]));
                assert(rest[i - 1] == chain[i]);
                assert forall|j: int| 0 <= j < i - 1 implies no_io(#[trigger] rest[j]) by {
                    assert(rest[j] == chain[j + 1]);
                }
            }
        }
        if forall|j: int| 0 <= j < chain.len() ==> no_io(#[trigger] chain[j]) {
            assert(no_io(chain[0]));
            assert forall|j: int| 0 <= j < rest.len() implies no_io(#[trigger] rest[j]) by {
                assert(rest[j] == chain[j + 1]);
            }
        }
    }
}

/// Walks the chain of causes of a status (the status first) and answers the
/// first I/O error in it: a link that is one, or an HTTP/2 error that carries
/// one.
pub fn match_for_io_error(chain: &Vec<ErrorLink>) -> (r: Option<IoFailure>)
    ensures
        r == first_io_error(chain@),
        forall|i: int, k: IoFailure|
            0 <= i < chain@.len() && chain@[i] == ErrorLink::Io(k) && (forall|j: int|
                0 <= j < i ==> no_io(#[trigger] chain@[j])) ==> r == Some(k),
        forall|i: int, k: IoFailure|
            0 <= i < chain@.len() && chain@[i] == ErrorLink::H2(Some(k)) && (forall|j: int|
                0 <= j < i ==> no_io(#[trigger] chain@[j])) ==> r == Some(k),
        (forall|j: int| 0 <= j < chain@.len() ==> no_io(#[trigger] chain@[j])) ==> r is None,
{
    proof {
        lemma_earliest_io_error_is_found(chain@);
    }
    let mut i: usize = 0;
    proof {
        assert(chain@.skip(0) =~= chain@);
    }
    while i < chain.len()
        invariant
            i <= chain@.len(),
            first_io_error(chain@) == first_io_error(chain@.skip(i as int)),
        decreases chain@.len() - i,
    {
        let link = chain[i];
        proof {
            lemma_earliest_io_error_is_found(chain@);
            assert(chain@.skip(i as int)[0] == link);
            assert(chain@.skip(i as int).drop_first() =~= chain@.skip(i + 1));
        }
        match link {
            ErrorLink::Io(kind) => {
                return Some(kind);
            },
            ErrorLink::H2(Some(kind)) => {
                return Some(kind);
            },
            _ => {},
        }
        i = i + 1;
    }
    proof {
        assert(chain@.skip(i as int).len() == 0);
    }
    None
}

/// The walk finds an I/O error exactly when some link carries one, and then
/// it is the one carried by the earliest such link.
pub proof fn lemma_first_io_error_is_earliest(chain: Seq<ErrorLink>)
    ensures
        first_io_error(chain) is Some <==> exists|k: int|
            0 <= k < chain.len() && (#[trigger] link_io(chain[k])) is Some,
        first_io_error(chain) is Some ==> exists|k: int|
            0 <= k < chain.len() && first_io_error(chain) == link_io(chain[k]) && forall|j: int|
                0 <= j < k ==> (#[trigger] link_io(chain[j])) is None,
    decreases chain.len(),
{
    if chain.len() > 0 {
        let rest = chain.drop_first();
        lemma_first_io_error_is_earliest(rest);
        assert forall|k: int| 0 <= k < rest.len() implies rest[k] == chain[k + 1] by {}
        if link_io(chain[0]) is None {
            if first_io_error(rest) is Some {
                let k = choose|k: int|
                    0 <= k < rest.len() && first_io_error(rest) == link_io(rest[k]) && forall|j: int|
                        0 <= j < k ==> (#[trigger] link_io(rest[j])) is None;
                assert forall|j: int| 0 <= j < k + 1 implies (#[trigger] link_io(chain[j])) is None by {
                    if j > 0 {
                        assert(chain[j] == rest[j - 1]);
                    }
                }
                assert(link_io(chain[k + 1]) is Some);
            } else {
                assert forall|k: int| 0 <= k < chain.len() implies (#[trigger] link_io(chain[k])) is None by {
                    if k > 0 {
                        assert(chain[k] == rest[k - 1]);
                    }
                }
            }
        } else {
            assert(link_io(chain[0]) is Some);
        }
    }
}

/// An item of the incoming stream: a request's message, or a failure with the
/// first I/O error found in its chain of causes.
#[derive(Debug)]
pub enum Incoming {
    Message(String),
    Failure(Option<IoFailure>),
}

/// How the server answers an incoming item.
#[derive(Debug)]
pub enum Answer {
    /// Send this message back.
    Echo(String),
    /// Send the failure on to the client.
    Forward,
    /// The client went away without closing the stream: stop relaying.
    Disconnected,
}

/// The answer that an incoming item calls for: a message is echoed as it
/// came, a broken pipe ends the relay, and any other failure is passed on.
pub open spec fn spec_answer(item: Incoming) -> Answer {
    match item {
        Incoming::Message(m) => Answer::Echo(m),
        Incoming::Failure(Some(IoFailure::BrokenPipe)) => Answer::Disconnected,
        Incoming::Failure(_) => Answer::Forward,
    }
}

/// Every message is echoed as it came, whatever its length or text; a broken
/// pipe ends the relay; every other failure, with or without an I/O error, is
/// forwarded.
pub proof fn lemma_answers(m: String)
    ensures
        spec_answer(Incoming::Message(m)) == Answer::Echo(m),
        spec_answer(Incoming::Failure(Some(IoFailure::BrokenPipe))) == Answer::Disconnected,
        spec_answer(Incoming::Failure(Some(IoFailure::Other))) == Answer::Forward,
        spec_answer(Incoming::Failure(None)) == Answer::Forward,
{
}

/// Decides how the bidirectional echo answers one incoming item.
pub fn answer(item: Incoming) -> (r: Answer)
    ensures
        r == spec_answer(item),
        item matches Incoming::Message(m) ==> r == Answer::Echo(m),
        item == Incoming::Failure(Some(IoFailure::BrokenPipe)) ==> r == Answer::Disconnected,
        item == Incoming::Failure(Some(IoFailure::Other)) ==> r == Answer::Forward,
        item == Incoming::Failure(None) ==> r == Answer::Forward,
{
    match item {
        Incoming::Message(m) => Answer::Echo(m),
        Incoming::Failure(Some(IoFailure::BrokenPipe)) => Answer::Disconnected,
        Incoming::Failure(_) => Answer::Forward,
    }
}

} // verus!
