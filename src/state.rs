//! The three record kinds kept in account storage, and their byte layouts.
use crate::codec::{
    flag_at, flag_byte, framed, lemma_flag_at, lemma_text_at_framed, push_flag, push_text, read_flag,
    read_text, text_at,
};
use vstd::prelude::*;
use vstd::string::StringSliceAdditionalSpecFns;
use vstd::utf8::*;

verus! {

/// The introduction record of one identity.
pub struct StudentInfo {
    pub discriminator: String,
    pub is_initialized: bool,
    pub name: String,
    pub msg: String,
}

/// Counts the replies of one intro record; it also gives the next reply's ordinal.
pub struct ReplyCounter {
    pub discriminator: String,
    pub is_initialized: bool,
    pub counter: u8,
}

/// One reply, stored at the address that its ordinal determines.
pub struct Reply {
    pub discriminator: String,
    pub is_initialized: bool,
    pub studentinfo: [u8; 32],
    pub reply: String,
}

/// An intro record with its texts as UTF-8 bytes.
pub struct IntroModel {
    pub discriminator: Seq<u8>,
    pub is_initialized: bool,
    pub name: Seq<u8>,
    pub msg: Seq<u8>,
}

/// A reply counter with its tag as UTF-8 bytes.
pub struct CounterModel {
    pub discriminator: Seq<u8>,
    pub is_initialized: bool,
    pub counter: u8,
}

/// A reply with its texts as UTF-8 bytes.
pub struct ReplyModel {
    pub discriminator: Seq<u8>,
    pub is_initialized: bool,
    pub studentinfo: Seq<u8>,
    pub reply: Seq<u8>,
}

impl View for StudentInfo {
    type V = IntroModel;

    open spec fn view(&self) -> IntroModel {
        IntroModel {
            discriminator: encode_utf8(self.discriminator@),
            is_initialized: self.is_initialized,
            name: encode_utf8(self.name@),
            msg: encode_utf8(self.msg@),
        }
    }
}

impl View for ReplyCounter {
    type V = CounterModel;

    open spec fn view(&self) -> CounterModel {
        CounterModel {
            discriminator: encode_utf8(self.discriminator@),
            is_initialized: self.is_initialized,
            counter: self.counter,
        }
    }
}

impl View for Reply {
    type V = ReplyModel;

    open spec fn view(&self) -> ReplyModel {
        ReplyModel {
            discriminator: encode_utf8(self.discriminator@),
            is_initialized: self.is_initialized,
            studentinfo: self.studentinfo@,
            reply: encode_utf8(self.reply@),
        }
    }
}

impl IntroModel {
    /// Layout: discriminator, flag, name, message.
    pub open spec fn bytes(self) -> Seq<u8> {
        framed(self.discriminator) + seq![flag_byte(self.is_initialized)] + framed(self.name)
            + framed(self.msg)
    }

    /// Every text is valid UTF-8 and short enough for its length prefix.
    pub open spec fn well_formed(self) -> bool {
        &&& valid_utf8(self.discriminator) && self.discriminator.len() <= u32::MAX
        &&& valid_utf8(self.name) && self.name.len() <= u32::MAX
        &&& valid_utf8(self.msg) && self.msg.len() <= u32::MAX
    }
}

impl CounterModel {
    /// Layout: discriminator, flag, count.
    pub open spec fn bytes(self) -> Seq<u8> {
        framed(self.discriminator) + seq![flag_byte(self.is_initialized)] + seq![self.counter]
    }

    /// The tag is valid UTF-8 and short enough for its length prefix.
    pub open spec fn well_formed(self) -> bool {
        valid_utf8(self.discriminator) && self.discriminator.len() <= u32::MAX
    }
}

impl ReplyModel {
    /// Layout: discriminator, flag, parent address (32 raw bytes), reply text.
    pub open spec fn bytes(self) -> Seq<u8> {
        framed(self.discriminator) + seq![flag_byte(self.is_initialized)] + self.studentinfo
            + framed(self.reply)
    }

    /// The texts are valid UTF-8 and framable, and the parent is an address.
    pub open spec fn well_formed(self) -> bool {
        &&& valid_utf8(self.discriminator) && self.discriminator.len() <= u32::MAX
        &&& self.studentinfo.len() == 32
        &&& valid_utf8(self.reply) && self.reply.len() <= u32::MAX
    }
}

/// The intro record stored at the start of `b`; bytes after it are ignored.
pub open spec fn intro_from(b: Seq<u8>) -> Option<IntroModel> {
    match text_at(b, 0) {
        Some((d, p1)) => match flag_at(b, p1) {
            Some(f) => match text_at(b, p1 + 1) {
                Some((n, p2)) => match text_at(b, p2) {
                    Some((m, _)) => Some(
                        IntroModel { discriminator: d, is_initialized: f, name: n, msg: m },
                    ),
                    None => None,
                },
                None => None,
            },
            None => None,
        },
        None => None,
    }
}

/// The reply counter stored at the start of `b`; bytes after it are ignored.
pub open spec fn counter_from(b: Seq<u8>) -> Option<CounterModel> {
    match text_at(b, 0) {
        Some((d, p1)) => match flag_at(b, p1) {
            Some(f) => if p1 + 1 < b.len() {
                Some(CounterModel { discriminator: d, is_initialized: f, counter: b[p1 + 1] })
            } else {
                None
            },
            None => None,
        },
        None => None,
    }
}

/// The reply stored at the start of `b`; bytes after it are ignored.
pub open spec fn reply_from(b: Seq<u8>) -> Option<ReplyModel> {
    match text_at(b, 0) {
        Some((d, p1)) => match flag_at(b, p1) {
            Some(f) => if p1 + 33 <= b.len() {
                match text_at(b, p1 + 33) {
                    Some((r, _)) => Some(
                        ReplyModel {
                            discriminator: d,
                            is_initialized: f,
                            studentinfo: b.subrange(p1 + 1, p1 + 33),
                            reply: r,
                        },
                    ),
                    None => None,
                }
            } else {
                None
            },
            None => None,
        },
        None => None,
    }
}

/// An intro record reads back from its bytes, whatever follows them.
pub proof fn lemma_intro_round_trip(m: IntroModel, rest: Seq<u8>)
    requires
        m.well_formed(),
    ensures
        intro_from(m.bytes() + rest) == Some(m),
{
    let b = m.bytes() + rest;
    let fd = framed(m.discriminator);
    let flag = seq![flag_byte(m.is_initialized)];
    let fname = framed(m.name);
    let fmsg = framed(m.msg);
    let p1 = fd.len() as int;
    let p2 = p1 + 1 + fname.len();
    assert(b =~= Seq::<u8>::empty() + fd + (flag + fname + fmsg + rest));
    lemma_text_at_framed(Seq::<u8>::empty(), m.discriminator, flag + fname + fmsg + rest);
    assert(text_at(b, 0) == Some((m.discriminator, p1)));
    assert(b =~= fd + flag + (fname + fmsg + rest));
    lemma_flag_at(fd, m.is_initialized, fname + fmsg + rest);
    assert(flag_at(b, p1) == Some(m.is_initialized));
    assert(b =~= (fd + flag) + fname + (fmsg + rest));
    lemma_text_at_framed(fd + flag, m.name, fmsg + rest);
    assert(text_at(b, p1 + 1) == Some((m.name, p2)));
    assert(b =~= (fd + flag + fname) + fmsg + rest);
    lemma_text_at_framed(fd + flag + fname, m.msg, rest);
    assert(text_at(b, p2) == Some((m.msg, p2 + fmsg.len())));
}

/// A reply counter reads back from its bytes, whatever follows them.
pub proof fn lemma_counter_round_trip(m: CounterModel, rest: Seq<u8>)
    requires
        m.well_formed(),
    ensures
        counter_from(m.bytes() + rest) == Some(m),
{
    let b = m.bytes() + rest;
    let fd = framed(m.discriminator);
    let flag = seq![flag_byte(m.is_initialized)];
    let tail = seq![m.counter] + rest;
    assert(b =~= Seq::<u8>::empty() + fd + (flag + tail));
    lemma_text_at_framed(Seq::<u8>::empty(), m.discriminator, flag + tail);
    assert(b =~= fd + flag + tail);
    lemma_flag_at(fd, m.is_initialized, tail);
    assert(b[fd.len() as int + 1] == m.counter);
}

/// The middle part of a concatenation is the subrange where it stands.
proof fn lemma_middle(a: Seq<u8>, x: Seq<u8>, c: Seq<u8>)
    ensures
        (a + x + c).subrange(a.len() as int, (a.len() + x.len()) as int) == x,
{
    assert((a + x + c).subrange(a.len() as int, (a.len() + x.len()) as int) =~= x);
}

/// A reply reads back from its bytes, whatever follows them.
pub proof fn lemma_reply_round_trip(m: ReplyModel, rest: Seq<u8>)
    requires
        m.well_formed(),
    ensures
        reply_from(m.bytes() + rest) == Some(m),
{
    let b = m.bytes() + rest;
    let fd = framed(m.discriminator);
    let flag = seq![flag_byte(m.is_initialized)];
    let fr = framed(m.reply);
    let p1 = fd.len() as int;
    assert(b =~= Seq::<u8>::empty() + fd + (flag + m.studentinfo + fr + rest));
    lemma_text_at_framed(Seq::<u8>::empty(), m.discriminator, flag + m.studentinfo + fr + rest);
    assert(text_at(b, 0) == Some((m.discriminator, p1)));
    assert(b =~= fd + flag + (m.studentinfo + fr + rest));
    lemma_flag_at(fd, m.is_initialized, m.studentinfo + fr + rest);
    assert(flag_at(b, p1) == Some(m.is_initialized));
    assert(b =~= (fd + flag) + m.studentinfo + (fr + rest));
    lemma_middle(fd + flag, m.studentinfo, fr + rest);
    assert(b =~= (fd + flag + m.studentinfo) + fr + rest);
    lemma_text_at_framed(fd + flag + m.studentinfo, m.reply, rest);
    assert(text_at(b, p1 + 33) == Some((m.reply, p1 + 33 + fr.len())));
}

impl StudentInfo {
    pub fn is_initialized(&self) -> (r: bool)
        ensures
            r == self.is_initialized,
    {
        self.is_initialized
    }

    /// Reads the intro record at the start of `data`.
    pub fn unpack_from(data: &[u8]) -> (r: Option<StudentInfo>)
        ensures
            match intro_from(data@) {
                Some(m) => r matches Some(s) && s@ == m,
                None => r is None,
            },
    {
        let (discriminator, p1) = match read_text(data, 0) {
            Some(x) => x,
            None => return None,
        };
        let is_initialized = match read_flag(data, p1) {
            Some(f) => f,
            None => return None,
        };
        let (name, p2) = match read_text(data, p1 + 1) {
            Some(x) => x,
            None => return None,
        };
        let (msg, _p3) = match read_text(data, p2) {
            Some(x) => x,
            None => return None,
        };
        Some(StudentInfo { discriminator, is_initialized, name, msg })
    }

    /// The record's bytes.
    pub fn pack(&self) -> (r: Vec<u8>)
        requires
            self@.well_formed(),
        ensures
            r@ == self@.bytes(),
    {
        let mut out: Vec<u8> = Vec::new();
        push_text(&mut out, self.discriminator.as_str());
        push_flag(&mut out, self.is_initialized);
        push_text(&mut out, self.name.as_str());
        push_text(&mut out, self.msg.as_str());
        assert(out@ =~= self@.bytes());
        out
    }
}

impl ReplyCounter {
    pub fn is_initialized(&self) -> (r: bool)
        ensures
            r == self.is_initialized,
    {
        self.is_initialized
    }

    /// Reads the reply counter at the start of `data`.
    pub fn unpack_from(data: &[u8]) -> (r: Option<ReplyCounter>)
        ensures
            match counter_from(data@) {
                Some(m) => r matches Some(c) && c@ == m,
                None => r is None,
            },
    {
        let (discriminator, p1) = match read_text(data, 0) {
            Some(x) => x,
            None => return None,
        };
        let is_initialized = match read_flag(data, p1) {
            Some(f) => f,
            None => return None,
        };
        if p1 + 1 >= data.len() {
            return None;
        }
        Some(ReplyCounter { discriminator, is_initialized, counter: data[p1 + 1] })
    }

    /// The record's bytes.
    pub fn pack(&self) -> (r: Vec<u8>)
        requires
            self@.well_formed(),
        ensures
            r@ == self@.bytes(),
    {
        let mut out: Vec<u8> = Vec::new();
        push_text(&mut out, self.discriminator.as_str());
        push_flag(&mut out, self.is_initialized);
        out.push(self.counter);
        assert(out@ =~= self@.bytes());
        out
    }
}

impl Reply {
    pub fn is_initialized(&self) -> (r: bool)
        ensures
            r == self.is_initialized,
    {
        self.is_initialized
    }

    /// Reads the reply at the start of `data`.
    pub fn unpack_from(data: &[u8]) -> (r: Option<Reply>)
        ensures
            match reply_from(data@) {
                Some(m) => r matches Some(x) && x@ == m,
                None => r is None,
            },
    {
        let (discriminator, p1) = match read_text(data, 0) {
            Some(x) => x,
            None => return None,
        };
        let is_initialized = match read_flag(data, p1) {
            Some(f) => f,
            None => return None,
        };
        if data.len() - p1 < 33 {
            return None;
        }
        let dlen = data.len();
        let mut studentinfo = [0u8; 32];
        let mut i: usize = 0;
        while i < 32
            invariant
                i <= 32,
                p1 + 33 <= data@.len(),
                dlen == data@.len(),
                forall|k: int| 0 <= k < i ==> studentinfo@[k] == data@[p1 + 1 + k],
            decreases 32 - i,
        {
            studentinfo[i] = data[p1 + 1 + i];
            i = i + 1;
        }
        assert(studentinfo@ =~= data@.subrange(p1 + 1, p1 + 33));
        let (reply, _p2) = match read_text(data, p1 + 33) {
            Some(x) => x,
            None => return None,
        };
        Some(Reply { discriminator, is_initialized, studentinfo, reply })
    }

    /// The record's bytes.
    pub fn pack(&self) -> (r: Vec<u8>)
        requires
            self@.well_formed(),
        ensures
            r@ == self@.bytes(),
    {
        let mut out: Vec<u8> = Vec::new();
        push_text(&mut out, self.discriminator.as_str());
        push_flag(&mut out, self.is_initialized);
        let mut i: usize = 0;
        let ghost head = out@;
        while i < 32
            invariant
                i <= 32,
                self.studentinfo@.len() == 32,
                out@ == head + self.studentinfo@.subrange(0, i as int),
            decreases 32 - i,
        {
            out.push(self.studentinfo[i]);
            i = i + 1;
        }
        push_text(&mut out, self.reply.as_str());
        assert(out@ =~= self@.bytes());
        out
    }
}

} // verus!
