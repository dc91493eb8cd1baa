//! Sessions of the bank protocol.
//!
//! A client first names a command and is prompted for its argument; the
//! next line it sends is that argument. What a session answers, and how it
//! changes, is decided here from plain values: whether an account exists
//! and whether a password fits is looked up by the caller.

use vstd::prelude::*;
use vstd::std_specs::convert::FromSpecImpl;
use vstd::string::StringSliceAdditionalSpecFns;
use vstd::utf8::{encode_utf8, is_char_boundary, valid_utf8};

verus! {

/// The commands of the protocol.
#[derive(Debug, Clone, Copy, PartialEq, Eq, Structural)]
pub enum Command {
    Create,
    Login,
    Update,
    Quit,
    Noop,
    Unimpl,
}

/// Whether a character has the Unicode property `White_Space`.
pub open spec fn is_white_space(c: char) -> bool {
    let n = c as u32;
    ||| 0x09 <= n <= 0x0d
    ||| n == 0x20
    ||| n == 0x85
    ||| n == 0xa0
    ||| n == 0x1680
    ||| 0x2000 <= n <= 0x200a
    ||| n == 0x2028
    ||| n == 0x2029
    ||| n == 0x202f
    ||| n == 0x205f
    ||| n == 0x3000
}

/// A text without the white space at its end.
pub open spec fn trimmed_end(text: Seq<char>) -> Seq<char>
    decreases text.len(),
{
    if text.len() > 0 && is_white_space(text.last()) {
        trimmed_end(text.drop_last())
    } else {
        text
    }
}

/// `str::trim_end`: the slice without its trailing white space, where
/// white space is what Unicode gives the property `White_Space`.
#[verifier::external_body]
fn trim_end(text: &str) -> (trimmed: &str)
    ensures
        trimmed@ == trimmed_end(text@),
{
    text.trim_end()
}

/// Whether two texts are the same.
fn same_text(a: &str, b: &str) -> (same: bool)
    ensures
        same == (a@ == b@),
{
    broadcast use vstd::utf8::encode_utf8_decode_utf8;

    let x = a.as_bytes();
    let y = b.as_bytes();
    if x.len() != y.len() {
        return false;
    }
    let mut i: usize = 0;
    while i < x.len()
        invariant
            i <= x@.len(),
            x@.len() == y@.len(),
            x@ == encode_utf8(a@),
            y@ == encode_utf8(b@),
            forall|j: int| 0 <= j < i ==> x@[j] == y@[j],
        decreases x@.len() - i,
    {
        if x[i] != y[i] {
            return false;
        }
        i += 1;
    }
    assert(x@ =~= y@);
    assert(vstd::utf8::decode_utf8(encode_utf8(a@)) == a@);
    assert(vstd::utf8::decode_utf8(encode_utf8(b@)) == b@);
    true
}

/// The command that a word names. The empty word is no command at all;
/// any word that is not known is one that is not implemented.
pub open spec fn command_named(word: Seq<char>) -> Command {
    if word == "create"@ {
        Command::Create
    } else if word == "update"@ {
        Command::Update
    } else if word == "login"@ {
        Command::Login
    } else if word == "quit"@ {
        Command::Quit
    } else if word == ""@ {
        Command::Noop
    } else {
        Command::Unimpl
    }
}

impl<'a> From<&'a str> for Command {
    fn from(s: &'a str) -> (command: Command) {
        let word = trim_end(s);
        if same_text(word, "create") {
            Command::Create
        } else if same_text(word, "update") {
            Command::Update
        } else if same_text(word, "login") {
            Command::Login
        } else if same_text(word, "quit") {
            Command::Quit
        } else if same_text(word, "") {
            Command::Noop
        } else {
            Command::Unimpl
        }
    }
}

impl<'a> FromSpecImpl<&'a str> for Command {
    open spec fn obeys_from_spec() -> bool {
        true
    }

    open spec fn from_spec(s: &'a str) -> Command {
        command_named(trimmed_end(s@))
    }
}

/// The prompt that answers a command.
pub open spec fn prompt(cmd: Command) -> Seq<char> {
    match cmd {
        Command::Create => "give me a <user>:<password>\n"@,
        Command::Login => "give me a <user>:<password>\n"@,
        Command::Update => "give me an amount\n"@,
        Command::Quit => "terminating...\n"@,
        Command::Noop => "continuing...\n"@,
        Command::Unimpl => "unimplemented!\n"@,
    }
}

/// The prompt that answers a command.
pub fn get_command_response(cmd: Command) -> (response: String)
    ensures
        response@ == prompt(cmd),
{
    let s = match cmd {
        Command::Create => "give me a <user>:<password>\n",
        Command::Login => "give me a <user>:<password>\n",
        Command::Update => "give me an amount\n",
        Command::Quit => "terminating...\n",
        Command::Noop => "continuing...\n",
        Command::Unimpl => "unimplemented!\n",
    };
    s.to_owned()
}

/// Whether a request was carried out.
#[derive(Debug, Clone, Copy, PartialEq, Eq, Structural)]
pub enum Status {
    Success,
    Failure,
}

/// The answer to a request.
#[derive(Debug, PartialEq, Eq)]
pub struct Response {
    pub status: Status,
    pub msg: String,
}

/// What a session knows about its client.
#[derive(Debug, Clone)]
pub struct Session {
    authed: bool,
    user: Option<String>,
    command: Option<Command>,
}

/// A session as a value.
pub struct SessionView {
    pub authed: bool,
    pub user: Option<Seq<char>>,
    pub command: Option<Command>,
}

impl View for Session {
    type V = SessionView;

    closed spec fn view(&self) -> SessionView {
        SessionView {
            authed: self.authed,
            user: match self.user {
                Some(user) => Some(user@),
                None => None,
            },
            command: self.command,
        }
    }
}

impl Default for Session {
    fn default() -> (session: Session)
        ensures
            session@ == (SessionView { authed: false, user: None, command: None }),
    {
        Session { authed: false, user: None, command: None }
    }
}

/// What a session does with a line from its client.
pub enum Turn {
    /// The line named a command: send this prompt.
    Prompt(String),
    /// The line is the argument of this command: carry the command out.
    Run(Command),
}

impl Session {
    /// Whether the client has logged in.
    pub fn is_authed(&self) -> (authed: bool)
        ensures
            authed == self@.authed,
    {
        self.authed
    }

    /// The user of the session, once one is known.
    pub fn user(&self) -> (user: Option<&str>)
        ensures
            match user {
                Some(name) => self@.user == Some(name@),
                None => self@.user is None,
            },
    {
        match &self.user {
            Some(user) => Some(user.as_str()),
            None => None,
        }
    }

    /// Takes a line from the client. With no command pending, the line
    /// names one: it becomes pending and its prompt is to be sent. With a
    /// command pending, the line is its argument: the command is handed
    /// out to be run and is no longer pending.
    pub fn handle_data(&mut self, data: &str) -> (turn: Turn)
        ensures
            final(self)@.authed == old(self)@.authed,
            final(self)@.user == old(self)@.user,
            match old(self)@.command {
                None => {
                    &&& final(self)@.command == Some(command_named(trimmed_end(data@)))
                    &&& turn matches Turn::Prompt(text)
                    &&& text@ == prompt(command_named(trimmed_end(data@)))
                },
                Some(cmd) => {
                    &&& final(self)@.command is None
                    &&& turn matches Turn::Run(run)
                    &&& run == cmd
                },
            },
    {
        match self.command {
            Some(cmd) => {
                self.command = None;
                Turn::Run(cmd)
            },
            None => {
                let cmd = Command::from(data);
                self.command = Some(cmd);
                Turn::Prompt(get_command_response(cmd))
            },
        }
    }

    /// Logs the client in. `account` says what was found under the user's
    /// name: `None` for no account, otherwise whether the password given
    /// is the account's.
    ///
    /// A session that has a user already refuses. With the right password
    /// the session is authenticated as the user. A wrong password and a
    /// missing account change nothing.
    pub fn handle_login(&mut self, user: &str, account: Option<bool>) -> (response: Response)
        ensures
            final(self)@.command == old(self)@.command,
            response.status == login_status(old(self)@, account),
            response.msg@ == login_message(old(self)@, account),
            final(self)@.authed == (old(self)@.authed || (old(self)@.user is None && account
                == Some(true))),
            final(self)@.user == if old(self)@.user is None && account == Some(true) {
                Some(user@)
            } else {
                old(self)@.user
            },
    {
        if self.user.is_some() {
            return Response { status: Status::Failure, msg: "already logged in\n".to_owned() };
        }
        match account {
            Some(correct) => {
                if correct {
                    self.authed = true;
                    self.user = Some(user.to_owned());
                    Response { status: Status::Success, msg: "login successful!\n".to_owned() }
                } else {
                    Response { status: Status::Success, msg: "incorrect password\n".to_owned() }
                }
            },
            None => Response { status: Status::Failure, msg: "no such account\n".to_owned() },
        }
    }

    /// Answers a request to create an account. `exists` says whether the
    /// name is taken. Where it is not, the caller is to create the account,
    /// and the session takes the name for its user; it is not
    /// authenticated by that.
    pub fn handle_create(&mut self, user: &str, exists: bool) -> (response: Response)
        ensures
            final(self)@.command == old(self)@.command,
            final(self)@.authed == old(self)@.authed,
            exists ==> response.status == Status::Failure && response.msg@ == "account exists\n"@
                && final(self)@.user == old(self)@.user,
            !exists ==> response.status == Status::Success && response.msg@
                == "account created\n"@ && final(self)@.user == Some(user@),
    {
        if exists {
            Response { status: Status::Failure, msg: "account exists\n".to_owned() }
        } else {
            self.user = Some(user.to_owned());
            Response { status: Status::Success, msg: "account created\n".to_owned() }
        }
    }

    /// Whether the session may change a balance: it needs a user, and the
    /// user has to be authenticated. The refusal says which is missing.
    pub fn handle_update(&self) -> (r: Result<&str, Response>)
        ensures
            match r {
                Ok(user) => self@.user == Some(user@) && self@.authed,
                Err(response) => {
                    &&& response.status == Status::Failure
                    &&& self@.user is None ==> response.msg@ == "Must login first!\n"@
                    &&& self@.user is Some ==> !self@.authed && response.msg@ == "Unauthorized\n"@
                },
            },
    {
        match &self.user {
            None => Err(Response { status: Status::Failure, msg: "Must login first!\n".to_owned() }),
            Some(user) => {
                if !self.authed {
                    Err(Response { status: Status::Failure, msg: "Unauthorized\n".to_owned() })
                } else {
                    Ok(user.as_str())
                }
            },
        }
    }
}

/// Whether a login is counted as carried out. A wrong password counts:
/// only a session that is taken and a missing account are failures.
pub open spec fn login_status(session: SessionView, account: Option<bool>) -> Status {
    if session.user is Some || account is None {
        Status::Failure
    } else {
        Status::Success
    }
}

/// What a login is answered with.
pub open spec fn login_message(session: SessionView, account: Option<bool>) -> Seq<char> {
    if session.user is Some {
        "already logged in\n"@
    } else {
        match account {
            Some(true) => "login successful!\n"@,
            Some(false) => "incorrect password\n"@,
            None => "no such account\n"@,
        }
    }
}

/// The byte that sets a user name apart from a password.
pub const COLON: u8 = 0x3a;

/// The first offset at or after `from` where a colon stands, or
/// `bytes.len()` where none does.
pub open spec fn next_colon(bytes: Seq<u8>, from: int) -> int
    decreases bytes.len() - from,
{
    if from < 0 || from >= bytes.len() {
        bytes.len() as int
    } else if bytes[from] == COLON {
        from
    } else {
        next_colon(bytes, from + 1)
    }
}

/// `next_colon` finds a colon or the end, and nothing before it is one.
pub proof fn lemma_next_colon(bytes: Seq<u8>, from: int)
    requires
        0 <= from <= bytes.len(),
    ensures
        from <= next_colon(bytes, from) <= bytes.len(),
        next_colon(bytes, from) < bytes.len() ==> bytes[next_colon(bytes, from)] == COLON,
        forall|j: int| from <= j < next_colon(bytes, from) ==> bytes[j] != COLON,
    decreases bytes.len() - from,
{
    if from < bytes.len() && bytes[from] != COLON {
        lemma_next_colon(bytes, from + 1);
    }
}

/// The first offset at or after `from` where a colon stands.
fn find_colon(bytes: &[u8], from: usize) -> (at: usize)
    requires
        from <= bytes@.len(),
    ensures
        at == next_colon(bytes@, from as int),
        from <= at <= bytes@.len(),
{
    let mut i = from;
    while i < bytes.len()
        invariant
            from <= i <= bytes@.len(),
            next_colon(bytes@, from as int) == next_colon(bytes@, i as int),
        decreases bytes@.len() - i,
    {
        if bytes[i] == COLON {
            return i;
        }
        i += 1;
    }
    i
}

/// Whether a text holds a colon.
pub fn has_colon(up: &str) -> (found: bool)
    ensures
        found == (next_colon(encode_utf8(up@), 0) < encode_utf8(up@).len()),
{
    let bytes = up.as_bytes();
    find_colon(bytes, 0) < bytes.len()
}

/// A colon starts a character: a text may be cut before it.
proof fn lemma_cut_at_colon(bytes: Seq<u8>, at: int)
    requires
        valid_utf8(bytes),
        0 <= at < bytes.len(),
        bytes[at] == COLON,
    ensures
        is_char_boundary(bytes, at),
{
    vstd::utf8::is_char_boundary_iff_not_is_continuation_byte(bytes, at);
}

/// A colon is a character of one byte: a text that starts with one may be
/// cut behind it.
proof fn lemma_cut_behind_colon(bytes: Seq<u8>)
    requires
        valid_utf8(bytes),
        0 < bytes.len(),
        bytes[0] == COLON,
    ensures
        is_char_boundary(bytes, 1),
{
    reveal_with_fuel(is_char_boundary, 2);
    reveal_with_fuel(valid_utf8, 2);
}

/// Splits `user:password` at its colons: the text before the first, and
/// the text between the first and the second, or the end where there is
/// no second. The text has to hold a colon.
pub fn parse_up_string(up: &str) -> (parts: (&str, &str))
    requires
        next_colon(encode_utf8(up@), 0) < encode_utf8(up@).len(),
    ensures
        ({
            let bytes = encode_utf8(up@);
            let first = next_colon(bytes, 0);
            let second = next_colon(bytes, first + 1);
            &&& encode_utf8(parts.0@) == bytes.subrange(0, first)
            &&& encode_utf8(parts.1@) == bytes.subrange(first + 1, second)
        }),
{
    broadcast use vstd::utf8::encode_utf8_valid_utf8;
    broadcast use vstd::utf8::is_char_boundary_start_end_of_seq;

    broadcast use vstd::utf8::valid_utf8_split;

    let bytes = up.as_bytes();
    let first = find_colon(bytes, 0);
    proof {
        lemma_next_colon(bytes@, 0);
        lemma_cut_at_colon(bytes@, first as int);
    }
    let (user, rest) = up.split_at(first);
    proof {
        assert(valid_utf8(bytes@.subrange(first as int, bytes@.len() as int)));
        lemma_cut_behind_colon(rest.spec_bytes());
    }
    let (_, rest) = rest.split_at(1);
    let tail = rest.as_bytes();
    assert(tail@ =~= bytes@.subrange(first + 1, bytes@.len() as int));
    let second = find_colon(tail, 0);
    proof {
        lemma_next_colon(tail@, 0);
        if second < tail@.len() {
            lemma_cut_at_colon(tail@, second as int);
        }
        lemma_colon_shift(bytes@, first + 1, 0);
    }
    let (password, _) = rest.split_at(second);
    assert(tail@.subrange(0, second as int) =~= bytes@.subrange(
        first + 1,
        first + 1 + second as int,
    ));
    (user, password)
}

/// Looking for a colon in the rest of a text finds the same colon as
/// looking in the whole text from there.
proof fn lemma_colon_shift(bytes: Seq<u8>, start: int, from: int)
    requires
        0 <= start <= bytes.len(),
        0 <= from,
    ensures
        next_colon(bytes, start + from) == start + next_colon(
            bytes.subrange(start, bytes.len() as int),
            from,
        ),
    decreases bytes.len() - start - from,
{
    let tail = bytes.subrange(start, bytes.len() as int);
    if from < tail.len() {
        assert(tail[from] == bytes[start + from]);
        if tail[from] != COLON {
            lemma_colon_shift(bytes, start, from + 1);
        }
    }
}

} // verus!
