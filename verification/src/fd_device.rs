//! Devices that own serializable file descriptors, and the descriptors.
use vstd::prelude::*;

use crate::values::{intlist_value, parse_intlist};
use crate::text::{concat_str, lemma_index_of_char,
    chars_eq_str, chars_of, find_char, index_of, slice_chars, string_from, string_of};

verus! {

/// Why a device does not parse; the field is the text at fault.
#[derive(Debug, PartialEq, Eq)]
pub enum FdDeviceParseError {
    InvalidValue(String),
}

/// A device that owns file descriptors.
#[derive(Debug, PartialEq, Eq, Hash, Clone, Ord, PartialOrd)]
pub enum FdDevice {
    Net { id: String },
}

pub enum FdDeviceSpec {
    Net(Seq<char>),
}

impl View for FdDevice {
    type V = FdDeviceSpec;

    open spec fn view(&self) -> FdDeviceSpec {
        match self {
            FdDevice::Net { id } => FdDeviceSpec::Net(id@),
        }
    }
}

/// Inputs on which parsing gives up: a `(` followed by nothing, or by text
/// whose last character takes more than one byte in UTF-8.
pub open spec fn fd_device_unparsable(s: Seq<char>) -> bool {
    match index_of(s, '(') {
        Some(i) => {
            let rest = s.subrange(i + 1, s.len() as int);
            rest.len() == 0 || (rest.last() as u32) >= 0x80
        },
        None => false,
    }
}

/// The device that `s` names: `net(<id>)`, where the id is everything
/// between the first `(` and the final `)`.
pub open spec fn fd_device_value(s: Seq<char>) -> Result<FdDeviceSpec, Seq<char>> {
    match index_of(s, '(') {
        None => Err(s),
        Some(i) => {
            let device = s.subrange(0, i);
            let rest = s.subrange(i + 1, s.len() as int);
            if device != "net"@ {
                Err(device)
            } else if rest.last() != ')' {
                Err(s)
            } else {
                Ok(FdDeviceSpec::Net(rest.drop_last()))
            }
        },
    }
}

/// How a device is written: `net(<id>)`.
pub open spec fn fd_device_name(d: FdDeviceSpec) -> Seq<char> {
    match d {
        FdDeviceSpec::Net(id) => "net("@ + id + ")"@,
    }
}

/// A device written out reads back as the same device.
pub proof fn lemma_fd_device_name_roundtrip(d: FdDeviceSpec)
    ensures
        !fd_device_unparsable(fd_device_name(d)),
        fd_device_value(fd_device_name(d)) == Ok::<FdDeviceSpec, Seq<char>>(d),
{
    reveal_strlit("net(");
    reveal_strlit(")");
    match d {
        FdDeviceSpec::Net(id) => {
            let s = fd_device_name(d);
            assert(s[3] == '(');
            assert forall|j: int| 0 <= j < 3 implies s[j] != '(' by {
                assert(s[j] == "net("@[j]);
            }
            lemma_index_of_char(s, '(', 3);
            assert(s.subrange(0, 3) =~= "net"@) by {
                reveal_strlit("net");
            }
            let rest = s.subrange(4, s.len() as int);
            assert(rest =~= id + ")"@);
            assert(rest.last() == ')');
            assert(rest.drop_last() =~= id);
        },
    }
}

impl FdDevice {
    /// The net device `id`.
    pub fn new_net(id: String) -> (r: Self)
        ensures
            r@ == FdDeviceSpec::Net(id@),
    {
        FdDevice::Net { id }
    }

    /// The device as it is written: `net(<id>)`.
    pub fn to_string(&self) -> (r: String)
        ensures
            r@ == fd_device_name(self@),
    {
        match self {
            FdDevice::Net { id } => {
                let head = concat_str("net(", id.as_str());
                concat_str(head.as_str(), ")")
            },
        }
    }

    pub fn from_str(s: &str) -> (r: Result<Self, FdDeviceParseError>)
        requires
            !fd_device_unparsable(s@),
        ensures
            match fd_device_value(s@) {
                Ok(d) => r matches Ok(x) && x@ == d,
                Err(t) => r matches Err(FdDeviceParseError::InvalidValue(x)) && x@ == t,
            },
    {
        let v = chars_of(s);
        let n = v.len();
        let i = match find_char(&v, '(') {
            Some(i) => i,
            None => return Err(FdDeviceParseError::InvalidValue(string_from(s))),
        };
        let device = slice_chars(&v, 0, i);
        let rest = slice_chars(&v, i + 1, n);
        let m = rest.len();
        let metadata = slice_chars(&rest, 0, m - 1);
        if !chars_eq_str(&device, "net") {
            return Err(FdDeviceParseError::InvalidValue(string_of(&device)));
        }
        if rest[m - 1] != ')' {
            return Err(FdDeviceParseError::InvalidValue(string_from(s)));
        }
        assert(metadata@ =~= rest@.drop_last());
        Ok(FdDevice::Net { id: string_of(&metadata) })
    }
}

/// A file descriptor that can be serialized: once serialized it is only a
/// number; an active one is open in this process.
#[derive(Clone, Copy, Debug, PartialEq, Eq, Hash, Structural)]
pub enum SerializableFd {
    Serialized(i32),
    Active(i32),
}

impl SerializableFd {
    /// A descriptor as it was serialized.
    pub fn new_serialized(raw: i32) -> (r: Self)
        ensures
            r == SerializableFd::Serialized(raw),
    {
        SerializableFd::Serialized(raw)
    }

    /// A descriptor open in this process.
    pub fn new_active(raw: i32) -> (r: Self)
        ensures
            r == SerializableFd::Active(raw),
    {
        SerializableFd::Active(raw)
    }

    /// Whether the descriptor is open in this process.
    pub fn is_active(&self) -> (r: bool)
        ensures
            r == (*self is Active),
    {
        match self {
            SerializableFd::Active(_) => true,
            SerializableFd::Serialized(_) => false,
        }
    }

    /// The number of the descriptor.
    pub fn raw(&self) -> (r: i32)
        ensures
            r == match *self {
                SerializableFd::Active(x) => x,
                SerializableFd::Serialized(x) => x,
            },
    {
        match self {
            SerializableFd::Active(x) => *x,
            SerializableFd::Serialized(x) => *x,
        }
    }

    /// Takes an open descriptor out, leaving only its number behind.
    pub fn extract_fd(&mut self) -> (r: Option<SerializableFd>)
        ensures
            match *old(self) {
                SerializableFd::Active(x) => r == Some(SerializableFd::Active(x)) && *final(self)
                    == SerializableFd::Serialized(x),
                SerializableFd::Serialized(_) => r is None && *final(self) == *old(self),
            },
    {
        match *self {
            SerializableFd::Active(x) => {
                *self = SerializableFd::Serialized(x);
                Some(SerializableFd::Active(x))
            },
            SerializableFd::Serialized(_) => None,
        }
    }
}

/// Open descriptors, one per number of an integer list such as `[3,4]`;
/// nothing when the list does not parse.
pub open spec fn serializable_fds_value(v: Seq<char>) -> Option<Seq<SerializableFd>> {
    match intlist_value(v) {
        Some(l) => Some(Seq::new(l.len(), |i: int| SerializableFd::Active(l[i] as i32))),
        None => None,
    }
}

impl SerializableFd {
    /// The descriptors of an integer list, as an option gives them.
    pub fn parse_list(input: &str) -> (r: Option<Vec<SerializableFd>>)
        ensures
            match r {
                Some(v) => serializable_fds_value(input@) == Some(v@),
                None => serializable_fds_value(input@) is None,
            },
    {
        let chars = chars_of(input);
        let list = match parse_intlist(&chars) {
            Some(l) => l,
            None => {
                return None;
            },
        };
        let mut out: Vec<SerializableFd> = Vec::new();
        let mut i: usize = 0;
        while i < list.len()
            invariant
                i <= list@.len(),
                out@ == Seq::new(i as nat, |k: int| SerializableFd::Active(list@[k] as i32)),
            decreases list@.len() - i,
        {
            out.push(SerializableFd::Active(list[i] as i32));
            assert(out@ =~= Seq::new((i + 1) as nat, |k: int| SerializableFd::Active(list@[k] as i32)));
            i = i + 1;
        }
        Some(out)
    }
}

} // verus!
