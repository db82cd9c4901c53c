use vstd::prelude::*;
use crate::pool::Conn;

verus! {

/// Body of a response, by the protocol that carries it.
pub enum ResponseBody {
    /// An HTTP/1 body, read from a leased transport.
    H1(Conn),
    /// A body of a multiplexed (HTTP/2) stream.
    H2,
    /// A body of an HTTP/3 stream.
    H3,
    /// A body that has ended: it yields no chunk.
    Eof,
}

impl ResponseBody {
    /// Whether the transport under this body is marked to be closed; false
    /// where no leased transport is under it.
    pub open spec fn destroy_marked(&self) -> bool {
        match self {
            ResponseBody::H1(c) => c.destroy_spec(),
            _ => false,
        }
    }

    /// Marks the leased transport under an HTTP/1 body to be closed when the
    /// body is dropped; other bodies hold no transport and are unchanged.
    pub fn destroy_on_drop(&mut self)
        ensures
            match *old(self) {
                ResponseBody::H1(c0) => match *final(self) {
                    ResponseBody::H1(c1) => c1.destroy_spec() && c1.key@ == c0.key@ && c1.conn
                        == c0.conn,
                    _ => false,
                },
                ResponseBody::H2 => *final(self) is H2,
                ResponseBody::H3 => *final(self) is H3,
                ResponseBody::Eof => *final(self) is Eof,
            },
    {
        if let ResponseBody::H1(c) = self {
            c.destroy_on_drop();
        }
    }

    /// Whether the leased transport under this body will be closed when the
    /// body is dropped.
    pub fn can_destroy_on_drop(&mut self) -> (r: bool)
        ensures
            r == old(self).destroy_marked(),
            *final(self) == *old(self),
    {
        if let ResponseBody::H1(c) = self {
            return c.is_destroy_on_drop();
        }
        false
    }

    /// The variant's name, as the body describes itself.
    pub fn name(&self) -> (r: &'static str)
        ensures
            r@ == match self {
                ResponseBody::H1(_) => "ResponseBody::H1(..)"@,
                ResponseBody::H2 => "ResponseBody::H2(..)"@,
                ResponseBody::H3 => "ResponseBody::H3(..)"@,
                ResponseBody::Eof => "ResponseBody::Eof"@,
            },
    {
        match self {
            ResponseBody::H1(_) => "ResponseBody::H1(..)",
            ResponseBody::H2 => "ResponseBody::H2(..)",
            ResponseBody::H3 => "ResponseBody::H3(..)",
            ResponseBody::Eof => "ResponseBody::Eof",
        }
    }

    /// Whether the body has ended.
    pub fn is_eof(&self) -> (r: bool)
        ensures
            r == (*self is Eof),
    {
        match self {
            ResponseBody::Eof => true,
            _ => false,
        }
    }

    /// The leased transport under the body, if any, leaving an ended body.
    pub fn take_conn(&mut self) -> (r: Option<Conn>)
        ensures
            *final(self) is Eof,
            match *old(self) {
                ResponseBody::H1(c) => r == Some(c),
                _ => r is None,
            },
    {
        let mut b = ResponseBody::Eof;
        core::mem::swap(self, &mut b);
        match b {
            ResponseBody::H1(c) => Some(c),
            _ => None,
        }
    }
}

} // verus!
