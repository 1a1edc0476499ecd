//! The shell exchange: a client asks for a command to run in the project
//! directory, and gets back the command's status and captured output.

use vstd::prelude::*;
use vstd::string::StringExecFns;

use crate::envelope::bin_fits;
use crate::envelope::encode_rec_i64_bin_bin;
use crate::envelope::encode_rec_str_strlist;
use crate::envelope::is_rec_i64_bin_bin_at;
use crate::envelope::is_rec_str_strlist_at;
use crate::envelope::lemma_is_strs_at_fits;
use crate::envelope::parse_rec_i64_bin_bin;
use crate::envelope::parse_rec_str_strlist;
use crate::envelope::rec_i64_bin_bin;
use crate::envelope::rec_str_strlist;
use crate::envelope::str_fits;
use crate::envelope::strs_fit;
use crate::errors::ProtocolError;
use crate::messages::messagetype::MessageType;
use crate::requests::payload::Decode;
use crate::requests::payload::Encode;
use crate::requests::payload::Payload;
use crate::requests::request::Request;
use crate::requests::request::Response;
use crate::requests::types::PayloadType;
use crate::wire::is_arr_hdr;
use crate::wire::is_bin_at;
use crate::wire::is_str_at;
use crate::wire::lemma_is_bin_at_fits;
use crate::wire::lemma_is_str_at_fits;
use crate::wire::mp_i64;
use crate::wire::mp_u64;

verus! {

/// The outcome of a shell command: its exit status and captured output
/// streams. The daemon builds one from the finished command
/// (`from_output`); the client prints the output and reports the status.
#[derive(Clone, Debug, PartialEq)]
pub struct ShellResponse {
    pub status: i32,
    pub stdout: Vec<u8>,
    pub stderr: Vec<u8>,
}

impl ShellResponse {
    /// Package what a finished shell command left behind.
    pub fn from_output(status: i32, stdout: Vec<u8>, stderr: Vec<u8>) -> (r: ShellResponse)
        ensures
            r.status == status,
            r.stdout@ == stdout@,
            r.stderr@ == stderr@,
    {
        ShellResponse { status, stdout, stderr }
    }
}

impl Encode for ShellResponse {
    open spec fn wire_bytes(&self) -> Seq<u8> {
        rec_i64_bin_bin(
            MessageType::ShellResponse.spec_tag(),
            self.status as i64,
            self.stdout@,
            self.stderr@,
        )
    }

    open spec fn enc_ok(&self) -> bool {
        bin_fits(self.stdout@) && bin_fits(self.stderr@)
    }

    fn as_bytes(&self) -> (r: Vec<u8>) {
        encode_rec_i64_bin_bin(
            MessageType::ShellResponse.tag(),
            self.status as i64,
            &self.stdout,
            &self.stderr,
        )
    }
}

impl Decode for ShellResponse {
    open spec fn eqv(&self, other: &Self) -> bool {
        &&& self.status == other.status
        &&& self.stdout@ == other.stdout@
        &&& self.stderr@ == other.stderr@
    }

    open spec fn wire_form(&self, data: Seq<u8>) -> bool {
        is_rec_i64_bin_bin_at(
            data,
            MessageType::ShellResponse.spec_tag(),
            self.status as i64,
            self.stdout@,
            self.stderr@,
        )
    }

    open spec fn mistagged_form(data: Seq<u8>) -> bool {
        exists|t: u64, v: i64, b1: Seq<u8>, b2: Seq<u8>|
            t != MessageType::ShellResponse.spec_tag() && bin_fits(b1) && bin_fits(b2) && data
                == #[trigger] rec_i64_bin_bin(t, v, b1, b2)
    }

    open spec fn decode_ok(&self) -> bool {
        true
    }

    fn from_bytes(data: &Vec<u8>) -> (r: Result<Self, ProtocolError>) {
        let parsed = match parse_rec_i64_bin_bin(data) {
            Some(p) => p,
            None => {
                proof {
                    if Self::mistagged_form(data@) {
                        let (t0, v0, c0, d0) = choose|t0: u64, v0: i64, c0: Seq<u8>, d0: Seq<u8>|
                            t0 != MessageType::ShellResponse.spec_tag() && bin_fits(c0) && bin_fits(
                                d0,
                            ) && data@ == #[trigger] rec_i64_bin_bin(t0, v0, c0, d0);
                    }
                }
                return Err(ProtocolError::MalformedEnvelope);
            },
        };
        let (t, v, b1, b2) = parsed;
        if t != MessageType::ShellResponse.tag() {
            proof {
                assert forall|m: Self|
                    m.enc_ok() && m.decode_ok() && data@ == #[trigger] m.wire_bytes() implies false by {
                    assert(data@ == rec_i64_bin_bin(
                        MessageType::ShellResponse.spec_tag(),
                        m.status as i64,
                        m.stdout@,
                        m.stderr@,
                    ));
                }
            }
            return Err(ProtocolError::TypeMismatch);
        }
        if v < -0x8000_0000 || v > 0x7fff_ffff {
            proof {
                assert forall|m: Self|
                    m.enc_ok() && m.decode_ok() && data@ == #[trigger] m.wire_bytes() implies false by {
                    assert(data@ == rec_i64_bin_bin(
                        MessageType::ShellResponse.spec_tag(),
                        m.status as i64,
                        m.stdout@,
                        m.stderr@,
                    ));
                }
                if Self::mistagged_form(data@) {
                    let (t0, v0, c0, d0) = choose|t0: u64, v0: i64, c0: Seq<u8>, d0: Seq<u8>|
                        t0 != MessageType::ShellResponse.spec_tag() && bin_fits(c0) && bin_fits(d0)
                            && data@ == #[trigger] rec_i64_bin_bin(t0, v0, c0, d0);
                }
            }
            return Err(ProtocolError::MalformedEnvelope);
        }
        proof {
            let (h, p1, p2) = choose|h: Seq<u8>, p1: Seq<u8>, p2: Seq<u8>|
                data@ == h + mp_u64(t) + mp_i64(v) + p1 + p2 && is_arr_hdr(h, 4) && is_bin_at(
                    p1,
                    b1@,
                ) && is_bin_at(p2, b2@);
            lemma_is_bin_at_fits(p1, b1@);
            lemma_is_bin_at_fits(p2, b2@);
            if Self::mistagged_form(data@) {
                let (t0, v0, c0, d0) = choose|t0: u64, v0: i64, c0: Seq<u8>, d0: Seq<u8>|
                    t0 != MessageType::ShellResponse.spec_tag() && bin_fits(c0) && bin_fits(d0)
                        && data@ == #[trigger] rec_i64_bin_bin(t0, v0, c0, d0);
            }
        }
        Ok(ShellResponse { status: v as i32, stdout: b1, stderr: b2 })
    }
}

impl Response for ShellResponse {
    open spec fn spec_get_type(&self) -> PayloadType {
        PayloadType::Shell
    }

    open spec fn run_allowed(&self) -> bool {
        0 <= self.status <= 0xffff
    }

    open spec fn spec_run(&self) -> Result<u16, u16> {
        Ok(self.status as u16)
    }

    fn get_type(&self) -> PayloadType {
        PayloadType::Shell
    }

    fn run(&self) -> (r: Result<u16, u16>) {
        Ok(self.status as u16)
    }
}

/// The command a quoted argument list asks the daemon to run, one word per
/// argument, joined with single spaces.
pub open spec fn spec_command_line(l: Seq<Seq<char>>) -> Seq<char>
    decreases l.len(),
{
    if l.len() == 0 {
        Seq::<char>::empty()
    } else {
        l[0] + spec_command_tail(l.drop_first())
    }
}

/// The rest of a command line: a space before each further argument.
pub open spec fn spec_command_tail(l: Seq<Seq<char>>) -> Seq<char>
    decreases l.len(),
{
    if l.len() == 0 {
        Seq::<char>::empty()
    } else {
        seq![' '] + l[0] + spec_command_tail(l.drop_first())
    }
}

/// Appending one more argument to a command tail.
proof fn lemma_command_tail_push(l: Seq<Seq<char>>, x: Seq<char>)
    ensures
        spec_command_tail(l.push(x)) == spec_command_tail(l) + seq![' '] + x,
    decreases l.len(),
{
    let lp = l.push(x);
    assert(spec_command_tail(lp) == seq![' '] + lp[0] + spec_command_tail(lp.drop_first()));
    if l.len() == 0 {
        assert(lp[0] == x);
        assert(lp.drop_first() =~= Seq::<Seq<char>>::empty());
        assert(spec_command_tail(lp) =~= spec_command_tail(l) + seq![' '] + x);
    } else {
        assert(lp[0] == l[0]);
        assert(lp.drop_first() =~= l.drop_first().push(x));
        lemma_command_tail_push(l.drop_first(), x);
        assert(spec_command_tail(l) == seq![' '] + l[0] + spec_command_tail(l.drop_first()));
        assert(spec_command_tail(lp) =~= spec_command_tail(l) + seq![' '] + x);
    }
}

/// Run a shell command in the project directory.
#[derive(Clone, Debug, PartialEq)]
pub struct ShellRequest {
    pub project_dir: String,
    pub args: Vec<String>,
}

impl ShellRequest {
    pub fn new(project_dir: &String, args: Vec<String>) -> (r: ShellRequest)
        ensures
            r.project_dir@ == project_dir@,
            r.args.deep_view() == args.deep_view(),
    {
        ShellRequest { project_dir: project_dir.clone(), args }
    }

    /// The single command line the arguments form, words joined by spaces.
    pub fn command_line(&self) -> (r: String)
        ensures
            r@ == spec_command_line(self.args.deep_view()),
    {
        let ghost dv = self.args.deep_view();
        let mut out = "".to_owned();
        proof {
            reveal_strlit("");
        }
        if self.args.len() == 0 {
            proof {
                assert(out@ =~= spec_command_line(dv));
            }
            return out;
        }
        out.append(self.args[0].as_str());
        proof {
            assert(dv[0] == self.args@[0]@);
            assert(dv.subrange(1, 1) =~= Seq::<Seq<char>>::empty());
            assert(out@ =~= dv[0] + spec_command_tail(dv.subrange(1, 1)));
        }
        let mut i: usize = 1;
        while i < self.args.len()
            invariant
                1 <= i <= self.args@.len(),
                dv == self.args.deep_view(),
                dv.len() == self.args@.len(),
                out@ == dv[0] + spec_command_tail(dv.subrange(1, i as int)),
            decreases self.args@.len() - i,
        {
            out.append(" ");
            out.append(self.args[i].as_str());
            proof {
                reveal_strlit(" ");
                assert(dv[i as int] == self.args@[i as int]@);
                assert(dv.subrange(1, i + 1) =~= dv.subrange(1, i as int).push(dv[i as int]));
                lemma_command_tail_push(dv.subrange(1, i as int), dv[i as int]);
                assert(out@ =~= dv[0] + spec_command_tail(dv.subrange(1, i + 1)));
            }
            i = i + 1;
        }
        proof {
            assert(dv.subrange(1, dv.len() as int) =~= dv.drop_first());
            assert(out@ =~= spec_command_line(dv));
        }
        out
    }
}

impl Encode for ShellRequest {
    open spec fn wire_bytes(&self) -> Seq<u8> {
        rec_str_strlist(
            MessageType::ShellRequest.spec_tag(),
            self.project_dir@,
            self.args.deep_view(),
        )
    }

    open spec fn enc_ok(&self) -> bool {
        str_fits(self.project_dir@) && strs_fit(self.args.deep_view())
    }

    fn as_bytes(&self) -> (r: Vec<u8>) {
        encode_rec_str_strlist(
            MessageType::ShellRequest.tag(),
            self.project_dir.as_str(),
            &self.args,
        )
    }
}

impl Decode for ShellRequest {
    open spec fn eqv(&self, other: &Self) -> bool {
        &&& self.project_dir@ == other.project_dir@
        &&& self.args.deep_view() == other.args.deep_view()
    }

    open spec fn wire_form(&self, data: Seq<u8>) -> bool {
        is_rec_str_strlist_at(
            data,
            MessageType::ShellRequest.spec_tag(),
            self.project_dir@,
            self.args.deep_view(),
        )
    }

    open spec fn mistagged_form(data: Seq<u8>) -> bool {
        exists|t: u64, s: Seq<char>, l: Seq<Seq<char>>|
            t != MessageType::ShellRequest.spec_tag() && str_fits(s) && strs_fit(l) && data
                == #[trigger] rec_str_strlist(t, s, l)
    }

    open spec fn decode_ok(&self) -> bool {
        true
    }

    fn from_bytes(data: &Vec<u8>) -> (r: Result<Self, ProtocolError>) {
        let parsed = match parse_rec_str_strlist(data) {
            Some(p) => p,
            None => {
                proof {
                    if Self::mistagged_form(data@) {
                        let (t0, s0, l0) = choose|t0: u64, s0: Seq<char>, l0: Seq<Seq<char>>|
                            t0 != MessageType::ShellRequest.spec_tag() && str_fits(s0) && strs_fit(
                                l0,
                            ) && data@ == #[trigger] rec_str_strlist(t0, s0, l0);
                    }
                }
                return Err(ProtocolError::MalformedEnvelope);
            },
        };
        let (t, s, l) = parsed;
        if t != MessageType::ShellRequest.tag() {
            proof {
                assert forall|m: Self|
                    m.enc_ok() && m.decode_ok() && data@ == #[trigger] m.wire_bytes() implies false by {
                    assert(data@ == rec_str_strlist(
                        MessageType::ShellRequest.spec_tag(),
                        m.project_dir@,
                        m.args.deep_view(),
                    ));
                }
            }
            return Err(ProtocolError::TypeMismatch);
        }
        proof {
            let dv = l.deep_view();
            let (h, sp, h2, lp) = choose|h: Seq<u8>, sp: Seq<u8>, h2: Seq<u8>, lp: Seq<u8>|
                data@ == h + mp_u64(t) + sp + h2 + lp && is_arr_hdr(h, 3) && is_str_at(sp, s@)
                    && is_arr_hdr(h2, dv.len()) && crate::envelope::is_strs_at(lp, dv);
            lemma_is_str_at_fits(sp, s@);
            lemma_is_strs_at_fits(lp, dv);
            if Self::mistagged_form(data@) {
                let (t0, s0, l0) = choose|t0: u64, s0: Seq<char>, l0: Seq<Seq<char>>|
                    t0 != MessageType::ShellRequest.spec_tag() && str_fits(s0) && strs_fit(l0)
                        && data@ == #[trigger] rec_str_strlist(t0, s0, l0);
            }
        }
        Ok(ShellRequest { project_dir: s, args: l })
    }
}

/// Law: the wire encoding of a shell request determines the request. With
/// `as_bytes` and `from_bytes`'s contracts this gives the round trip:
/// encoding a request and decoding the result yields the original value.
pub proof fn lemma_shell_request_encoding_injective(m1: ShellRequest, m2: ShellRequest)
    requires
        m1.enc_ok(),
        m2.enc_ok(),
        m1.wire_bytes() == m2.wire_bytes(),
    ensures
        m1.eqv(&m2),
{
    crate::envelope::lemma_rec_str_strlist_inj(
        MessageType::ShellRequest.spec_tag(),
        m1.project_dir@,
        m1.args.deep_view(),
        MessageType::ShellRequest.spec_tag(),
        m2.project_dir@,
        m2.args.deep_view(),
    );
}

/// Law: the wire encoding of a shell response determines the response.
pub proof fn lemma_shell_response_encoding_injective(m1: ShellResponse, m2: ShellResponse)
    requires
        m1.enc_ok(),
        m2.enc_ok(),
        m1.wire_bytes() == m2.wire_bytes(),
    ensures
        m1.eqv(&m2),
{
    crate::envelope::lemma_rec_i64_bin_bin_inj(
        MessageType::ShellResponse.spec_tag(),
        m1.status as i64,
        m1.stdout@,
        m1.stderr@,
        MessageType::ShellResponse.spec_tag(),
        m2.status as i64,
        m2.stdout@,
        m2.stderr@,
    );
}

impl Request for ShellRequest {
    open spec fn spec_get_type(&self) -> PayloadType {
        PayloadType::Shell
    }

    open spec fn run_ensures(&self, r: Option<Payload>) -> bool {
        r is None
    }

    fn get_type(&self) -> PayloadType {
        PayloadType::Shell
    }

    /// A shell request cannot be answered from daemon state alone: the host
    /// shell must run first, so the daemon's dispatch turns this request
    /// into an action and answers with `ShellResponse::from_output`.
    fn run(&self) -> (r: Option<Payload>) {
        None
    }
}

} // verus!
