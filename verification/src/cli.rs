//! What the program can be asked to do.

use vstd::prelude::*;

use crate::peer::{
    addresses, is_peer_id, multiaddr_of_text, peer_id_of_text, reads_back, Multiaddr, PeerId,
};

verus! {

/// The arguments of the program.
#[derive(Debug)]
pub struct Args {
    /// What the node's key is derived from.
    pub seed: Option<String>,
    pub mode: Mode,
}

/// How many bytes a secret key has.
pub const KEY_LENGTH: usize = 32;

/// The secret key for a seed: the start of the seed, filled up with zeros.
pub open spec fn key_of_seed(seed: Seq<u8>) -> Seq<u8> {
    Seq::new(
        KEY_LENGTH as nat,
        |i: int|
            if i < seed.len() {
                seed[i]
            } else {
                0
            },
    )
}

/// Makes the secret key for a seed.
pub fn key_bytes(seed: &Vec<u8>) -> (key: Vec<u8>)
    ensures
        key@ == key_of_seed(seed@),
{
    let mut key: Vec<u8> = Vec::new();
    while key.len() < KEY_LENGTH
        invariant
            key@.len() <= KEY_LENGTH,
            forall|i: int| 0 <= i < key@.len() ==> key@[i] == key_of_seed(seed@)[i],
        decreases KEY_LENGTH - key@.len(),
    {
        let i: usize = key.len();
        key.push(
            if i < seed.len() {
                seed[i]
            } else {
                0
            },
        );
    }
    assert(key@ =~= key_of_seed(seed@));
    key
}

/// What the program is to do.
#[derive(Debug)]
pub enum Mode {
    /// Wait for peers, and be reachable through relays.
    Listen { relays: Vec<String> },
    /// Dial addresses, and open a stream to the peer.
    ConnectPeer { peer_id: String, addr: Vec<String> },
    /// Dial what a ticket names.
    ConnectTicket { ticket: String },
    /// Dial an address.
    ConnectAddr { addr: String },
}

/// What the node is told.
#[derive(Debug)]
pub enum Command {
    Listen { relays: Option<Vec<Multiaddr>> },
    DialTicket { ticket: String },
    DialAddrs { addrs: Vec<Multiaddr>, open: Option<PeerId> },
}

/// What a [`Command`] says.
pub enum CommandView {
    Listen { relays: Option<Seq<Seq<u8>>> },
    DialTicket { ticket: Seq<char> },
    DialAddrs { addrs: Seq<Seq<u8>>, open: Option<Seq<u8>> },
}

impl View for Command {
    type V = CommandView;

    open spec fn view(&self) -> CommandView {
        match *self {
            Command::Listen { relays } => CommandView::Listen {
                relays: match relays {
                    Some(relays) => Some(addresses(relays@)),
                    None => None,
                },
            },
            Command::DialTicket { ticket } => CommandView::DialTicket { ticket: ticket@ },
            Command::DialAddrs { addrs, open } => CommandView::DialAddrs {
                addrs: addresses(addrs@),
                open: match open {
                    Some(peer_id) => Some(peer_id@),
                    None => None,
                },
            },
        }
    }
}

/// What a list of attempts comes to: the first complaint, or else everything that was read.
pub open spec fn collected(attempts: Seq<Result<Seq<u8>, Seq<char>>>) -> Result<
    Seq<Seq<u8>>,
    Seq<char>,
>
    decreases attempts.len(),
{
    if attempts.len() == 0 {
        Ok(Seq::empty())
    } else {
        match collected(attempts.drop_last()) {
            Err(complaint) => Err(complaint),
            Ok(addrs) => match attempts.last() {
                Ok(addr) => Ok(addrs.push(addr)),
                Err(complaint) => Err(complaint),
            },
        }
    }
}

/// What attempts to read addresses came to.
pub open spec fn attempts_of(attempts: Seq<Result<Multiaddr, String>>) -> Seq<
    Result<Seq<u8>, Seq<char>>,
> {
    attempts.map_values(
        |attempt: Result<Multiaddr, String>|
            match attempt {
                Ok(addr) => Ok(addr@),
                Err(complaint) => Err(complaint@),
            },
    )
}

/// What reading a list of addresses comes to.
pub open spec fn addrs_of_texts(texts: Seq<String>) -> Result<Seq<Seq<u8>>, Seq<char>> {
    collected(texts.map_values(|text: String| multiaddr_of_text(text@)))
}

/// Once an attempt failed, further ones do not matter.
proof fn lemma_first_complaint_stays(attempts: Seq<Result<Seq<u8>, Seq<char>>>, n: int)
    requires
        0 <= n <= attempts.len(),
        collected(attempts.take(n)) is Err,
    ensures
        collected(attempts) == collected(attempts.take(n)),
    decreases attempts.len(),
{
    if n < attempts.len() {
        let fewer = attempts.drop_last();
        assert(fewer.take(n) =~= attempts.take(n));
        lemma_first_complaint_stays(fewer, n);
    } else {
        assert(attempts.take(n) =~= attempts);
    }
}

/// Gives the first complaint of several attempts to read an address, or else all addresses.
pub fn collect_addrs(attempts: Vec<Result<Multiaddr, String>>) -> (addrs: Result<
    Vec<Multiaddr>,
    String,
>)
    ensures
        match addrs {
            Ok(addrs) => collected(attempts_of(attempts@)) == Ok::<Seq<Seq<u8>>, Seq<char>>(
                addresses(addrs@),
            ),
            Err(complaint) => collected(attempts_of(attempts@)) == Err::<Seq<Seq<u8>>, Seq<char>>(
                complaint@,
            ),
        },
{
    let ghost all = attempts_of(attempts@);
    let mut addrs: Vec<Multiaddr> = Vec::new();
    assert(all.take(0) =~= Seq::empty());
    assert(addresses(addrs@) =~= Seq::empty());
    for attempt in rest: attempts
        invariant
            all == attempts_of(rest.seq()),
            collected(all.take(rest.index())) == Ok::<Seq<Seq<u8>>, Seq<char>>(addresses(addrs@)),
    {
        let ghost done = rest.index();
        proof {
            assert(all.take(done + 1).drop_last() =~= all.take(done));
        }
        match attempt {
            Ok(addr) => {
                let ghost fewer = addresses(addrs@);
                addrs.push(addr);
                assert(addresses(addrs@) =~= fewer.push(addr@));
            },
            Err(complaint) => {
                proof {
                    lemma_first_complaint_stays(all, done + 1);
                }
                return Err(complaint);
            },
        }
    }
    assert(all.take(all.len() as int) =~= all);
    Ok(addrs)
}

/// Reads a list of addresses.
fn parse_addrs(texts: &Vec<String>) -> (addrs: Result<Vec<Multiaddr>, String>)
    ensures
        match addrs {
            Ok(addrs) => addrs_of_texts(texts@) == Ok::<Seq<Seq<u8>>, Seq<char>>(addresses(addrs@)),
            Err(complaint) => addrs_of_texts(texts@) == Err::<Seq<Seq<u8>>, Seq<char>>(complaint@),
        },
{
    let mut attempts: Vec<Result<Multiaddr, String>> = Vec::new();
    let mut i: usize = 0;
    while i < texts.len()
        invariant
            i <= texts@.len(),
            attempts@.len() == i,
            forall|j: int|
                0 <= j < i ==> attempts_of(attempts@)[j] == multiaddr_of_text(
                    #[trigger] texts@[j]@,
                ),
        decreases texts@.len() - i,
    {
        let ghost before = attempts_of(attempts@);
        attempts.push(Multiaddr::from_str(&texts[i]));
        proof {
            assert forall|j: int| 0 <= j < i implies attempts_of(attempts@)[j] == before[j] by {}
        }
        i += 1;
    }
    assert(attempts_of(attempts@) =~= texts@.map_values(|text: String| multiaddr_of_text(text@)));
    collect_addrs(attempts)
}

/// Why the program cannot do what it is asked.
#[derive(Debug)]
pub enum ParseError {
    /// The name of the peer cannot be read.
    PeerId(String),
    /// An address cannot be read.
    Multiaddr(String),
}

impl ParseError {
    /// The text by which the error is shown.
    pub fn to_string(&self) -> (text: String)
        ensures
            text@ == match *self {
                ParseError::PeerId(complaint) => complaint@,
                ParseError::Multiaddr(complaint) => complaint@,
            },
    {
        match self {
            ParseError::PeerId(complaint) => complaint.clone(),
            ParseError::Multiaddr(complaint) => complaint.clone(),
        }
    }
}

/// What the node is told where it is to wait for peers. Without relays it is not told of any.
pub fn listen_command(relays: Result<Vec<Multiaddr>, String>) -> (command: Result<
    Command,
    ParseError,
>)
    ensures
        match relays {
            Ok(relays) => command == Ok::<Command, ParseError>(
                Command::Listen {
                    relays: if relays@.len() == 0 {
                        None
                    } else {
                        Some(relays)
                    },
                },
            ),
            Err(complaint) => command == Err::<Command, ParseError>(
                ParseError::Multiaddr(complaint),
            ),
        },
{
    match relays {
        Ok(relays) => {
            let relays = if relays.len() == 0 {
                None
            } else {
                Some(relays)
            };
            Ok(Command::Listen { relays })
        },
        Err(complaint) => Err(ParseError::Multiaddr(complaint)),
    }
}

/// What the node is told where it is to dial addresses. A stream is opened to the peer that
/// is named, if any. A complaint about its name comes before one about an address.
pub fn dial_command(
    peer_id: Option<Result<PeerId, String>>,
    addrs: Result<Vec<Multiaddr>, String>,
) -> (command: Result<Command, ParseError>)
    ensures
        match (peer_id, addrs) {
            (Some(Err(complaint)), _) => command == Err::<Command, ParseError>(
                ParseError::PeerId(complaint),
            ),
            (_, Err(complaint)) => command == Err::<Command, ParseError>(
                ParseError::Multiaddr(complaint),
            ),
            (Some(Ok(peer_id)), Ok(addrs)) => command == Ok::<Command, ParseError>(
                Command::DialAddrs { addrs, open: Some(peer_id) },
            ),
            (None, Ok(addrs)) => command == Ok::<Command, ParseError>(
                Command::DialAddrs { addrs, open: None },
            ),
        },
{
    let open = match peer_id {
        Some(Ok(peer_id)) => Some(peer_id),
        Some(Err(complaint)) => {
            return Err(ParseError::PeerId(complaint));
        },
        None => None,
    };
    match addrs {
        Ok(addrs) => Ok(Command::DialAddrs { addrs, open }),
        Err(complaint) => Err(ParseError::Multiaddr(complaint)),
    }
}

impl Mode {
    /// Reads the name of the peer that a stream is to be opened to, if one is named.
    pub fn peer(&self) -> (peer: Option<Result<PeerId, String>>)
        ensures
            match *self {
                Mode::ConnectPeer { peer_id, .. } => {
                    &&& reads_back(peer_id@)
                    &&& match peer {
                        Some(Ok(peer)) => is_peer_id(peer@) && peer_id_of_text(peer_id@) == Ok::<
                            Seq<u8>,
                            Seq<char>,
                        >(peer@),
                        Some(Err(complaint)) => peer_id_of_text(peer_id@) == Err::<
                            Seq<u8>,
                            Seq<char>,
                        >(complaint@),
                        None => false,
                    }
                },
                _ => peer is None,
            },
    {
        match self {
            Mode::ConnectPeer { peer_id, .. } => Some(PeerId::from_str(peer_id)),
            _ => None,
        }
    }

    /// What the node is told to do, once the name of the peer was read.
    pub fn command_for(self, peer: Option<Result<PeerId, String>>) -> (command: Result<
        Command,
        ParseError,
    >)
        ensures
            match self {
                Mode::Listen { relays } => match addrs_of_texts(relays@) {
                    Ok(addrs) => {
                        &&& command matches Ok(command)
                        &&& command@ == CommandView::Listen {
                            relays: if addrs.len() == 0 {
                                None
                            } else {
                                Some(addrs)
                            },
                        }
                    },
                    Err(complaint) => {
                        &&& command matches Err(ParseError::Multiaddr(said))
                        &&& said@ == complaint
                    },
                },
                Mode::ConnectPeer { addr, .. } => match (peer, addrs_of_texts(addr@)) {
                    (Some(Err(complaint)), _) => command == Err::<Command, ParseError>(
                        ParseError::PeerId(complaint),
                    ),
                    (_, Err(complaint)) => {
                        &&& command matches Err(ParseError::Multiaddr(said))
                        &&& said@ == complaint
                    },
                    (Some(Ok(peer)), Ok(addrs)) => {
                        &&& command matches Ok(command)
                        &&& command@ == CommandView::DialAddrs { addrs, open: Some(peer@) }
                    },
                    (None, Ok(addrs)) => {
                        &&& command matches Ok(command)
                        &&& command@ == CommandView::DialAddrs { addrs, open: None }
                    },
                },
                Mode::ConnectTicket { ticket } => command == Ok::<Command, ParseError>(
                    Command::DialTicket { ticket },
                ),
                Mode::ConnectAddr { addr } => match multiaddr_of_text(addr@) {
                    Ok(bytes) => {
                        &&& command matches Ok(command)
                        &&& command@ == CommandView::DialAddrs { addrs: seq![bytes], open: None }
                    },
                    Err(complaint) => {
                        &&& command matches Err(ParseError::Multiaddr(said))
                        &&& said@ == complaint
                    },
                },
            },
    {
        match self {
            Mode::Listen { relays } => listen_command(parse_addrs(&relays)),
            Mode::ConnectPeer { addr, .. } => dial_command(peer, parse_addrs(&addr)),
            Mode::ConnectTicket { ticket } => Ok(Command::DialTicket { ticket }),
            Mode::ConnectAddr { addr } => {
                let addrs = match Multiaddr::from_str(&addr) {
                    Ok(addr) => {
                        let mut addrs: Vec<Multiaddr> = Vec::new();
                        addrs.push(addr);
                        assert(addresses(addrs@) =~= seq![addr@]);
                        Ok(addrs)
                    },
                    Err(complaint) => Err(complaint),
                };
                dial_command(None, addrs)
            },
        }
    }

    /// What the node is told to do.
    pub fn command(self) -> (command: Result<Command, ParseError>)
        ensures
            match self {
                Mode::Listen { relays } => match addrs_of_texts(relays@) {
                    Ok(addrs) => {
                        &&& command matches Ok(command)
                        &&& command@ == CommandView::Listen {
                            relays: if addrs.len() == 0 {
                                None
                            } else {
                                Some(addrs)
                            },
                        }
                    },
                    Err(complaint) => {
                        &&& command matches Err(ParseError::Multiaddr(said))
                        &&& said@ == complaint
                    },
                },
                Mode::ConnectPeer { peer_id, addr } => {
                    &&& reads_back(peer_id@)
                    &&& match (peer_id_of_text(peer_id@), addrs_of_texts(addr@)) {
                        (Err(complaint), _) => {
                            &&& command matches Err(ParseError::PeerId(said))
                            &&& said@ == complaint
                        },
                        (Ok(_), Err(complaint)) => {
                            &&& command matches Err(ParseError::Multiaddr(said))
                            &&& said@ == complaint
                        },
                        (Ok(bytes), Ok(addrs)) => {
                            &&& command matches Ok(command)
                            &&& command@ == CommandView::DialAddrs { addrs, open: Some(bytes) }
                        },
                    }
                },
                Mode::ConnectTicket { ticket } => command == Ok::<Command, ParseError>(
                    Command::DialTicket { ticket },
                ),
                Mode::ConnectAddr { addr } => match multiaddr_of_text(addr@) {
                    Ok(bytes) => {
                        &&& command matches Ok(command)
                        &&& command@ == CommandView::DialAddrs { addrs: seq![bytes], open: None }
                    },
                    Err(complaint) => {
                        &&& command matches Err(ParseError::Multiaddr(said))
                        &&& said@ == complaint
                    },
                },
            },
    {
        let peer = self.peer();
        self.command_for(peer)
    }
}

} // verus!
