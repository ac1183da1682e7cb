//! Roles in the making of a project, and who filled them.

use crate::binary::Decode;
use crate::binary::Encode;
use crate::binary::Error;
use crate::binary::Reader;
use crate::binary::Writer;
use crate::tags::Tags;
use vstd::prelude::*;

verus! {

/// A role in the making of a project.
#[derive(Clone, Copy, Debug, PartialEq, Eq, Hash, Structural)]
pub enum Credit {
    Artists,
    Translators,
    Proofreaders,
    Retouchers,
    Typesetters,
    Supervisors,
}

impl Credit {
    /// The role that a stored number stands for; a number above 4 stands
    /// for the supervisors.
    pub open spec fn of(value: u8) -> Credit {
        if value == 0 {
            Credit::Artists
        } else if value == 1 {
            Credit::Translators
        } else if value == 2 {
            Credit::Proofreaders
        } else if value == 3 {
            Credit::Retouchers
        } else if value == 4 {
            Credit::Typesetters
        } else {
            Credit::Supervisors
        }
    }

    /// The number under which the role is stored.
    pub open spec fn spec_code(self) -> u8 {
        match self {
            Credit::Artists => 0,
            Credit::Translators => 1,
            Credit::Proofreaders => 2,
            Credit::Retouchers => 3,
            Credit::Typesetters => 4,
            Credit::Supervisors => 5,
        }
    }

    /// The number under which the role is stored.
    #[verifier::when_used_as_spec(spec_code)]
    pub fn code(self) -> (code: u8)
        ensures
            code == self.spec_code(),
    {
        match self {
            Credit::Artists => 0,
            Credit::Translators => 1,
            Credit::Proofreaders => 2,
            Credit::Retouchers => 3,
            Credit::Typesetters => 4,
            Credit::Supervisors => 5,
        }
    }

    /// A role is read back from the number under which it is stored.
    pub proof fn lemma_code_round_trip(self)
        ensures
            Credit::of(self.spec_code()) == self,
    {
    }
}

impl DeepView for Credit {
    type V = Credit;

    open spec fn deep_view(&self) -> Credit {
        *self
    }
}

impl Encode for Credit {
    /// One byte: the number under which the role is stored.
    open spec fn layout(&self) -> Option<Seq<u8>> {
        Some(seq![self.spec_code()])
    }

    fn encode(&self, writer: &mut Writer) -> (result: Result<(), Error>) {
        let bytes: Vec<u8> = vec![self.code()];
        assert(bytes@ =~= self.layout()->0);
        writer.write_bytes(bytes.as_slice())
    }
}

impl Decode for Credit {
    open spec fn parsed(rest: Seq<u8>) -> Result<(Credit, Seq<u8>), Error> {
        if rest.len() < 1 {
            Err(Error::UnexpectedEnd)
        } else {
            Ok((Credit::of(rest[0]), rest.skip(1)))
        }
    }

    fn decode(reader: &mut Reader) -> (result: Result<Credit, Error>) {
        match reader.read_bytes(1) {
            Ok(bytes) => Ok(Credit::from(bytes[0])),
            Err(e) => Err(e),
        }
    }
}

/// A role that was written is read back, and what follows it is left.
pub proof fn lemma_credit_round_trip(credit: Credit, tail: Seq<u8>)
    ensures
        credit.layout() matches Some(bytes) && Credit::parsed(bytes + tail) == Ok::<
            (Credit, Seq<u8>),
            Error,
        >((credit, tail)),
{
    let bytes = credit.layout()->0;
    assert((bytes + tail).skip(1) =~= tail);
}

impl From<u8> for Credit {
    fn from(value: u8) -> (credit: Credit) {
        match value {
            0 => Credit::Artists,
            1 => Credit::Translators,
            2 => Credit::Proofreaders,
            3 => Credit::Retouchers,
            4 => Credit::Typesetters,
            _ => Credit::Supervisors,
        }
    }
}

impl vstd::std_specs::convert::FromSpecImpl<u8> for Credit {
    open spec fn obeys_from_spec() -> bool {
        true
    }

    open spec fn from_spec(value: u8) -> Credit {
        Credit::of(value)
    }
}

/// Who filled which role: for each role a set of names. A role without
/// names is not listed.
#[derive(Debug)]
pub struct Credits {
    artists: Tags,
    translators: Tags,
    proofreaders: Tags,
    retouchers: Tags,
    typesetters: Tags,
    supervisors: Tags,
}

impl Credits {
    /// The names under a role; the empty set when the role is not listed.
    pub closed spec fn names(&self, credit: Credit) -> Set<Seq<char>> {
        match credit {
            Credit::Artists => self.artists@,
            Credit::Translators => self.translators@,
            Credit::Proofreaders => self.proofreaders@,
            Credit::Retouchers => self.retouchers@,
            Credit::Typesetters => self.typesetters@,
            Credit::Supervisors => self.supervisors@,
        }
    }

    /// No name is held twice under one role.
    pub closed spec fn wf(&self) -> bool {
        &&& self.artists.wf()
        &&& self.translators.wf()
        &&& self.proofreaders.wf()
        &&& self.retouchers.wf()
        &&& self.typesetters.wf()
        &&& self.supervisors.wf()
    }

    /// Credits that list no role.
    pub fn new() -> (credits: Credits)
        ensures
            credits.wf(),
            forall|credit: Credit| credits.names(credit) == Set::<Seq<char>>::empty(),
    {
        Credits {
            artists: Tags::new(),
            translators: Tags::new(),
            proofreaders: Tags::new(),
            retouchers: Tags::new(),
            typesetters: Tags::new(),
            supervisors: Tags::new(),
        }
    }

    /// Adds a name under a role.
    pub fn insert(&mut self, credit: Credit, name: &str)
        requires
            old(self).wf(),
        ensures
            final(self).wf(),
            final(self).names(credit) == old(self).names(credit).insert(name@),
            forall|other: Credit|
                other != credit ==> final(self).names(other) == old(self).names(other),
    {
        let name = name.to_owned();
        match credit {
            Credit::Artists => self.artists.insert(name),
            Credit::Translators => self.translators.insert(name),
            Credit::Proofreaders => self.proofreaders.insert(name),
            Credit::Retouchers => self.retouchers.insert(name),
            Credit::Typesetters => self.typesetters.insert(name),
            Credit::Supervisors => self.supervisors.insert(name),
        }
    }

    /// Removes a name from a role; a role that loses its last name is no
    /// longer listed.
    pub fn remove(&mut self, credit: Credit, name: &str)
        requires
            old(self).wf(),
        ensures
            final(self).wf(),
            final(self).names(credit) == old(self).names(credit).remove(name@),
            forall|other: Credit|
                other != credit ==> final(self).names(other) == old(self).names(other),
    {
        let name = name.to_owned();
        match credit {
            Credit::Artists => self.artists.remove(&name),
            Credit::Translators => self.translators.remove(&name),
            Credit::Proofreaders => self.proofreaders.remove(&name),
            Credit::Retouchers => self.retouchers.remove(&name),
            Credit::Typesetters => self.typesetters.remove(&name),
            Credit::Supervisors => self.supervisors.remove(&name),
        }
    }

    /// The names under a role, if the role is listed.
    pub fn get(&self, credit: Credit) -> (names: Option<&Tags>)
        requires
            self.wf(),
        ensures
            match names {
                Some(held) => held@ == self.names(credit) && held@.len() > 0 && held.wf(),
                None => self.names(credit).len() == 0,
            },
    {
        let held = match credit {
            Credit::Artists => &self.artists,
            Credit::Translators => &self.translators,
            Credit::Proofreaders => &self.proofreaders,
            Credit::Retouchers => &self.retouchers,
            Credit::Typesetters => &self.typesetters,
            Credit::Supervisors => &self.supervisors,
        };
        if held.is_empty() {
            None
        } else {
            Some(held)
        }
    }
}

} // verus!
