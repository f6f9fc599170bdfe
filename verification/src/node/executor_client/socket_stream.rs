//! Which kind of socket an address text names.

use vstd::prelude::*;

use crate::text::{chars_of, copy_str, has_prefix, starts_with, string_of};

verus! {

/// The address of a socket.
#[derive(Debug)]
pub enum SocketAddress {
    /// The path of a Unix domain socket.
    Unix(String),
    /// The address and port of a TCP socket.
    Tcp(String),
}

/// The kinds of [`SocketAddress`], with their text.
pub enum AddressForm {
    Unix(Seq<char>),
    Tcp(Seq<char>),
}

/// The text of a TCP address is none.
#[derive(Debug)]
pub struct InvalidTcpAddress {
    pub address: String,
    pub reason: String,
}

impl InvalidTcpAddress {
    /// The error in words.
    pub fn to_text(&self) -> (r: String)
        ensures
            r@ == "Invalid TCP address '"@ + self.address@ + "': "@ + self.reason@,
    {
        let mut text = copy_str("Invalid TCP address '");
        text.append(self.address.as_str());
        text.append("': ");
        text.append(self.reason.as_str());
        text
    }
}

/// `tcp://` and `unix://` say what follows. Without them, a colon in something that is not an
/// absolute path makes a TCP address, and everything else is a path.
pub open spec fn address_form(addr: Seq<char>) -> AddressForm {
    if starts_with(addr, "tcp://"@) {
        AddressForm::Tcp(addr.skip("tcp://"@.len() as int))
    } else if starts_with(addr, "unix://"@) {
        AddressForm::Unix(addr.skip("unix://"@.len() as int))
    } else if addr.contains(':') && !(addr.len() > 0 && addr[0] == '/') {
        AddressForm::Tcp(addr)
    } else {
        AddressForm::Unix(addr)
    }
}

/// What `addr` names, if reading its TCP part gave `resolved`: a path that is taken as it is, or
/// the address that was read.
pub open spec fn parsed_form(addr: Seq<char>, resolved: Result<String, String>) -> Option<
    AddressForm,
> {
    match (address_form(addr), resolved) {
        (AddressForm::Unix(path), _) => Some(AddressForm::Unix(path)),
        (AddressForm::Tcp(_), Ok(address)) => Some(AddressForm::Tcp(address@)),
        (AddressForm::Tcp(_), Err(_)) => None,
    }
}

impl SocketAddress {
    pub open spec fn form(&self) -> AddressForm {
        match self {
            SocketAddress::Unix(p) => AddressForm::Unix(p@),
            SocketAddress::Tcp(a) => AddressForm::Tcp(a@),
        }
    }

    /// Tells the kind of an address from its text. The text of a TCP address is not looked at.
    fn detect(addr: &str) -> (r: SocketAddress)
        ensures
            r.form() == address_form(addr@),
    {
        let chars = chars_of(addr);
        let s = chars.as_slice();
        let tcp = chars_of("tcp://");
        let unix = chars_of("unix://");
        if has_prefix(s, tcp.as_slice()) {
            return SocketAddress::Tcp(rest_of(s, tcp.len()));
        }
        if has_prefix(s, unix.as_slice()) {
            return SocketAddress::Unix(rest_of(s, unix.len()));
        }
        if has_colon(s) && !(s.len() > 0 && s[0] == '/') {
            return SocketAddress::Tcp(copy_str(addr));
        }
        SocketAddress::Unix(copy_str(addr))
    }

    /// The part of `addr` that is to be read as a TCP address, if it names one.
    pub fn tcp_part(addr: &str) -> (r: Option<String>)
        ensures
            match address_form(addr@) {
                AddressForm::Tcp(text) => r matches Some(t) && t@ == text,
                AddressForm::Unix(_) => r is None,
            },
    {
        match SocketAddress::detect(addr) {
            SocketAddress::Tcp(text) => Some(text),
            SocketAddress::Unix(_) => None,
        }
    }

    /// The address that `addr` names. `resolved` is what reading [`SocketAddress::tcp_part`] as an
    /// address and a port gave: the address in its usual form, or why it is none. A path does not
    /// depend on it.
    pub fn parse(addr: &str, resolved: Result<String, String>) -> (r: Result<
        SocketAddress,
        InvalidTcpAddress,
    >)
        ensures
            match (address_form(addr@), resolved) {
                (AddressForm::Unix(path), _) => r matches Ok(a) && a.form() == AddressForm::Unix(
                    path,
                ),
                (AddressForm::Tcp(_), Ok(address)) => r matches Ok(a) && a.form()
                    == AddressForm::Tcp(address@),
                (AddressForm::Tcp(text), Err(reason)) => r matches Err(e) && e.address@ == text
                    && e.reason@ == reason@,
            },
    {
        match SocketAddress::detect(addr) {
            SocketAddress::Unix(path) => Ok(SocketAddress::Unix(path)),
            SocketAddress::Tcp(text) => match resolved {
                Ok(address) => Ok(SocketAddress::Tcp(address)),
                Err(reason) => Err(InvalidTcpAddress { address: text, reason }),
            },
        }
    }

    /// The address that `addr` names, or the path `addr` if it names none.
    pub fn parse_or_path(addr: &str, resolved: Result<String, String>) -> (r: SocketAddress)
        ensures
            r.form() == match parsed_form(addr@, resolved) {
                Some(form) => form,
                None => AddressForm::Unix(addr@),
            },
    {
        match SocketAddress::parse(addr, resolved) {
            Ok(address) => address,
            Err(_) => SocketAddress::Unix(copy_str(addr)),
        }
    }

    /// The address for display: a path as it is, a TCP address with its scheme.
    pub open spec fn display(&self) -> Seq<char> {
        match self.form() {
            AddressForm::Unix(p) => p,
            AddressForm::Tcp(a) => "tcp://"@ + a,
        }
    }

    /// The address for display.
    pub fn as_str(&self) -> (r: String)
        ensures
            r@ == self.display(),
    {
        match self {
            SocketAddress::Unix(p) => copy_str(p.as_str()),
            SocketAddress::Tcp(a) => {
                let mut text = copy_str("tcp://");
                text.append(a.as_str());
                text
            },
        }
    }
}

fn rest_of(s: &[char], from: usize) -> (r: String)
    requires
        from <= s@.len(),
    ensures
        r@ == s@.skip(from as int),
{
    let rest = vstd::slice::slice_subrange(s, from, s.len());
    assert(rest@ =~= s@.skip(from as int));
    string_of(rest)
}

fn has_colon(s: &[char]) -> (r: bool)
    ensures
        r == s@.contains(':'),
{
    let mut i: usize = 0;
    while i < s.len()
        invariant
            i <= s@.len(),
            forall|k: int| 0 <= k < i ==> s@[k] != ':',
        decreases s@.len() - i,
    {
        if s[i] == ':' {
            return true;
        }
        i = i + 1;
    }
    false
}

/// An address, displayed, is read as the same address again: a TCP address whatever it is, and a
/// path if it is absolute.
pub proof fn law_display_round_trip(a: SocketAddress, resolved: Result<String, String>)
    requires
        a matches SocketAddress::Tcp(text) ==> (resolved matches Ok(r) && r@ == text@),
        a matches SocketAddress::Unix(path) ==> path@.len() > 0 && path@[0] == '/',
    ensures
        parsed_form(a.display(), resolved) == Some(a.form()),
        a matches SocketAddress::Tcp(text) ==> address_form(a.display()) == AddressForm::Tcp(
            text@,
        ),
{
    let tcp = "tcp://"@;
    let unix = "unix://"@;
    match a {
        SocketAddress::Tcp(text) => {
            assert((tcp + text@).take(tcp.len() as int) =~= tcp);
            assert((tcp + text@).skip(tcp.len() as int) =~= text@);
        },
        SocketAddress::Unix(path) => {
            reveal_strlit("tcp://");
            reveal_strlit("unix://");
            if starts_with(path@, tcp) {
                assert(path@.take(tcp.len() as int)[0] == path@[0]);
            }
            if starts_with(path@, unix) {
                assert(path@.take(unix.len() as int)[0] == path@[0]);
            }
        },
    }
}

/// Which texts are TCP addresses and which are paths.
pub proof fn law_which_texts_are_addresses(rest: Seq<char>, addr: Seq<char>)
    ensures
        address_form("tcp://"@ + rest) == AddressForm::Tcp(rest),
        address_form("unix://"@ + rest) == AddressForm::Unix(rest),
        addr.len() > 0 && addr[0] == '/' ==> address_form(addr) == AddressForm::Unix(addr),
        !addr.contains(':') ==> address_form(addr) == AddressForm::Unix(addr),
        addr.contains(':') && addr[0] != '/' && (addr.len() < 6 || addr.take(6) != "tcp://"@) && (
        addr.len() < 7 || addr.take(7) != "unix://"@) ==> address_form(addr) == AddressForm::Tcp(
            addr,
        ),
{
    reveal_strlit("tcp://");
    reveal_strlit("unix://");
    let tcp = "tcp://"@;
    let unix = "unix://"@;
    assert((tcp + rest).take(6) =~= tcp);
    assert((tcp + rest).skip(6) =~= rest);
    assert((unix + rest).take(7) =~= unix);
    assert((unix + rest).skip(7) =~= rest);
    assert((unix + rest)[0] == 'u');
    if starts_with(unix + rest, tcp) {
        assert((unix + rest).take(6)[0] == tcp[0]);
    }
    if starts_with(addr, tcp) {
        assert(addr.take(6)[3] == ':');
        assert(addr[3] == ':');
        assert(addr.take(6)[0] == 't');
        assert(addr[0] == 't');
    }
    if starts_with(addr, unix) {
        assert(addr.take(7)[4] == ':');
        assert(addr[4] == ':');
        assert(addr.take(7)[0] == 'u');
        assert(addr[0] == 'u');
    }
}

/// An address is displayed as it is if it is a path, and behind its scheme if it is a TCP address.
pub proof fn law_how_addresses_are_displayed(a: SocketAddress)
    ensures
        a matches SocketAddress::Unix(p) ==> a.display() == p@,
        a matches SocketAddress::Tcp(t) ==> a.display() == "tcp://"@ + t@,
{
}

} // verus!
