//! Workspace identity: a project directory gets a stable identity hash and
//! a registry directory for daemon discovery, and the daemon address record
//! kept in that directory is encoded and decoded here.
//!
//! Everything filesystem-shaped is split off: this module computes paths,
//! hashes and record bytes; reading, writing and renaming the files is the
//! runtime's concern.

use vstd::prelude::*;
use vstd::string::StrSliceExecFns;
use vstd::string::StringExecFns;
use vstd::utf8::encode_utf8;

verus! {

/// The FNV-1a offset basis.
pub const FNV_OFFSET: u64 = 0xcbf2_9ce4_8422_2325;

/// The FNV-1a prime.
pub const FNV_PRIME: u64 = 0x0000_0100_0000_01b3;

/// The FNV-1a hash of the first `n` bytes.
pub open spec fn spec_fnv1a_at(bytes: Seq<u8>, n: int) -> u64
    decreases n,
{
    if n <= 0 {
        FNV_OFFSET
    } else {
        vstd::wrapping::u64_specs::wrapping_mul(
            spec_fnv1a_at(bytes, n - 1) ^ (bytes[n - 1] as u64),
            FNV_PRIME,
        )
    }
}

/// The FNV-1a hash of a byte sequence.
pub open spec fn spec_fnv1a(bytes: Seq<u8>) -> u64 {
    spec_fnv1a_at(bytes, bytes.len() as int)
}

/// The identity hash of a project path: the FNV-1a hash of its UTF-8 bytes.
/// A pure function of the path, so it is the same on every call, in every
/// process, and across restarts.
pub open spec fn spec_workspace_hash(project_dir: Seq<char>) -> u64 {
    spec_fnv1a(encode_utf8(project_dir))
}

/// The FNV-1a hash of the given bytes.
pub fn fnv1a(bytes: &[u8]) -> (h: u64)
    ensures
        h == spec_fnv1a(bytes@),
{
    let mut h: u64 = FNV_OFFSET;
    let mut i: usize = 0;
    while i < bytes.len()
        invariant
            i <= bytes@.len(),
            h == spec_fnv1a_at(bytes@, i as int),
        decreases bytes@.len() - i,
    {
        h = (h ^ (bytes[i] as u64)).wrapping_mul(FNV_PRIME);
        i = i + 1;
    }
    h
}

/// The index just after the last occurrence of `c` in `s` (0 if `c` does
/// not occur).
pub open spec fn spec_split_after(s: Seq<char>, c: char) -> int
    decreases s.len(),
{
    if s.len() == 0 {
        0
    } else if s.last() == c {
        s.len() as int
    } else {
        spec_split_after(s.drop_last(), c)
    }
}

/// The split point is exactly the position that has `c` just before it and
/// no `c` after it.
pub proof fn lemma_split_after_at(s: Seq<char>, c: char, i: int)
    requires
        0 <= i <= s.len(),
        i == 0 || s[i - 1] == c,
        forall|k: int| i <= k < s.len() ==> s[k] != c,
    ensures
        spec_split_after(s, c) == i,
    decreases s.len(),
{
    if s.len() == 0 {
    } else if s.last() == c {
        assert(i == s.len());
    } else {
        assert(i < s.len());
        assert(forall|k: int| i <= k < s.drop_last().len() ==> s.drop_last()[k] != c);
        if i > 0 {
            assert(s.drop_last()[i - 1] == c);
        }
        lemma_split_after_at(s.drop_last(), c, i);
    }
}

/// The final path component: everything after the last separator.
pub open spec fn spec_file_name(s: Seq<char>) -> Seq<char> {
    s.subrange(spec_split_after(s, '/'), s.len() as int)
}

/// The final component of a path, as `file_name` of a path is usually
/// understood: everything after the last `/` (the whole path if there is
/// none).
pub fn file_name(s: &String) -> (r: String)
    ensures
        r@ == spec_file_name(s@),
{
    let st = s.as_str();
    let n = st.unicode_len();
    let mut i: usize = n;
    while i > 0 && st.get_char(i - 1) != '/'
        invariant
            i <= n,
            n == s@.len(),
            st@ == s@,
            forall|k: int| i <= k < n ==> s@[k] != '/',
        decreases i,
    {
        i = i - 1;
    }
    proof {
        lemma_split_after_at(s@, '/', i as int);
    }
    st.substring_char(i, n).to_owned()
}

/// The registry directory of a project under a root: the per-role registry
/// tree, then one directory named for the project.
pub open spec fn spec_registry_path(root: Seq<char>, project_dir: Seq<char>) -> Seq<char> {
    root + "/.emacs-remote-server/workspaces/"@ + spec_file_name(project_dir)
}

/// The decimal digit `d` as a character.
pub open spec fn spec_digit_char(d: nat) -> char {
    if d == 0 {
        '0'
    } else if d == 1 {
        '1'
    } else if d == 2 {
        '2'
    } else if d == 3 {
        '3'
    } else if d == 4 {
        '4'
    } else if d == 5 {
        '5'
    } else if d == 6 {
        '6'
    } else if d == 7 {
        '7'
    } else if d == 8 {
        '8'
    } else {
        '9'
    }
}

/// The decimal digits of `n`, most significant first.
pub open spec fn spec_decimal(n: nat) -> Seq<char>
    decreases n,
{
    if n < 10 {
        seq![spec_digit_char(n)]
    } else {
        spec_decimal(n / 10) + seq![spec_digit_char(n % 10)]
    }
}

/// One decimal digit, as a string.
fn digit_str(d: u64) -> (r: &'static str)
    requires
        d < 10,
    ensures
        r@ == seq![spec_digit_char(d as nat)],
{
    proof {
        reveal_strlit("0");
        reveal_strlit("1");
        reveal_strlit("2");
        reveal_strlit("3");
        reveal_strlit("4");
        reveal_strlit("5");
        reveal_strlit("6");
        reveal_strlit("7");
        reveal_strlit("8");
        reveal_strlit("9");
    }
    if d == 0 {
        "0"
    } else if d == 1 {
        "1"
    } else if d == 2 {
        "2"
    } else if d == 3 {
        "3"
    } else if d == 4 {
        "4"
    } else if d == 5 {
        "5"
    } else if d == 6 {
        "6"
    } else if d == 7 {
        "7"
    } else if d == 8 {
        "8"
    } else {
        "9"
    }
}

/// `n` written out in decimal.
pub fn u64_decimal(n: u64) -> (r: String)
    ensures
        r@ == spec_decimal(n as nat),
    decreases n,
{
    if n < 10 {
        digit_str(n).to_owned()
    } else {
        let mut s = u64_decimal(n / 10);
        s.append(digit_str(n % 10));
        s
    }
}

/// The name of the daemon address file of one workspace: its project name
/// and its identity hash, under the record suffix.
pub open spec fn spec_addr_file_name(name: Seq<char>, hash: u64) -> Seq<char> {
    name + "-"@ + spec_decimal(hash as nat) + ".workspace"@
}

/// Relies on dirs::home_dir: the platform's home directory, if the
/// environment defines one. The result depends on the environment, so
/// nothing is promised of it.
#[verifier::external_body]
fn home_dir_string() -> (r: Option<String>) {
    match dirs::home_dir() {
        Some(p) => p.to_str().map(|s| s.to_owned()),
        None => None,
    }
}

/// The identity of one project: the project directory itself, its stable
/// identity hash, and the registry directory that daemon discovery for this
/// project goes through.
#[derive(Clone, Debug)]
pub struct Workspace {
    /// The registry directory of this workspace.
    pub path: String,
    /// The project directory the identity is computed from.
    pub project_dir: String,
    /// The stable identity hash of the project directory.
    pub hash: u64,
}

impl Workspace {
    /// The identity is tied to the project directory: the hash is the
    /// project path's stable hash, nothing else.
    pub open spec fn wf(&self) -> bool {
        self.hash == spec_workspace_hash(self.project_dir@)
    }

    /// Resolve a project directory against an explicit registry root.
    pub fn with_root(project_dir: &String, root: &String) -> (w: Workspace)
        ensures
            w.wf(),
            w.project_dir@ == project_dir@,
            w.path@ == spec_registry_path(root@, project_dir@),
    {
        let hash = fnv1a(project_dir.as_str().as_bytes());
        let mut path = root.as_str().to_owned();
        path.append("/.emacs-remote-server/workspaces/");
        let name = file_name(project_dir);
        path.append(name.as_str());
        Workspace { path, project_dir: project_dir.as_str().to_owned(), hash }
    }

    /// Resolve a project directory against the home directory's registry
    /// root. Yields nothing when the environment defines no home directory.
    pub fn new(project_dir: &String) -> (r: Option<Workspace>)
        ensures
            match r {
                Some(w) => {
                    &&& w.wf()
                    &&& w.project_dir@ == project_dir@
                    &&& exists|root: Seq<char>| w.path@ == spec_registry_path(root, project_dir@)
                },
                None => true,
            },
    {
        match home_dir_string() {
            Some(home) => {
                let w = Workspace::with_root(project_dir, &home);
                proof {
                    assert(w.path@ == spec_registry_path(home@, project_dir@));
                }
                Some(w)
            },
            None => None,
        }
    }

    /// The file the daemon's address record is published in:
    /// `<registryDir>/<name>-<identityHash>.workspace`.
    pub fn daemon_addr_file(&self) -> (r: String)
        ensures
            r@ == self.path@ + "/"@ + spec_addr_file_name(
                spec_file_name(self.project_dir@),
                self.hash,
            ),
    {
        let mut f = self.path.as_str().to_owned();
        f.append("/");
        let name = file_name(&self.project_dir);
        f.append(name.as_str());
        f.append("-");
        let digits = u64_decimal(self.hash);
        f.append(digits.as_str());
        f.append(".workspace");
        f
    }

    /// The registry directory of this workspace.
    pub fn path(&self) -> (r: &String)
        ensures
            r@ == self.path@,
    {
        &self.path
    }

    /// The project directory the identity is computed from.
    pub fn project_dir(&self) -> (r: &String)
        ensures
            r@ == self.project_dir@,
    {
        &self.project_dir
    }

    /// The stable identity hash of the project directory.
    pub fn hash(&self) -> (r: u64)
        ensures
            r == self.hash,
    {
        self.hash
    }
}

/// The identity hash is deterministic and stable: any two well-formed
/// identities of the same project path carry the same hash, however and
/// whenever they were resolved.
pub proof fn lemma_identity_hash_stable(w1: Workspace, w2: Workspace)
    requires
        w1.wf(),
        w2.wf(),
        w1.project_dir@ == w2.project_dir@,
    ensures
        w1.hash == w2.hash,
{
}

/// The discriminant of a persisted daemon record.
pub const DAEMON_RECORD_TAG: u64 = 12;

/// The persisted state of one daemon instance, kept as a single record file
/// in the workspace's registry directory. Its presence is advisory: it says
/// a daemon may be running, nothing more. A reader that cannot decode the
/// file treats it as absent.
#[derive(Clone, Debug)]
pub struct DaemonRecord {
    /// The remote host the daemon tunnels to.
    pub host: String,
    /// The project path on the remote side.
    pub workspace_path: String,
    /// The local end of the tunnel.
    pub local_port: u16,
    /// The remote end of the tunnel.
    pub remote_port: u16,
    /// The last index hash this daemon has seen.
    pub last_index_hash: u64,
}

impl DaemonRecord {
    /// The canonical bytes this record is persisted as.
    pub open spec fn wire_bytes(&self) -> Seq<u8> {
        crate::envelope::rec_record(
            DAEMON_RECORD_TAG,
            self.host@,
            self.workspace_path@,
            self.local_port as u64,
            self.remote_port as u64,
            self.last_index_hash,
        )
    }

    /// The record's strings fit the wire's length fields.
    pub open spec fn enc_ok(&self) -> bool {
        crate::envelope::str_fits(self.host@) && crate::envelope::str_fits(self.workspace_path@)
    }

    /// The two records are equal, field for field, up to views.
    pub open spec fn eqv(&self, other: &Self) -> bool {
        &&& self.host@ == other.host@
        &&& self.workspace_path@ == other.workspace_path@
        &&& self.local_port == other.local_port
        &&& self.remote_port == other.remote_port
        &&& self.last_index_hash == other.last_index_hash
    }

    pub fn new(
        host: String,
        workspace_path: String,
        local_port: u16,
        remote_port: u16,
        last_index_hash: u64,
    ) -> (r: DaemonRecord)
        ensures
            r.host@ == host@,
            r.workspace_path@ == workspace_path@,
            r.local_port == local_port,
            r.remote_port == remote_port,
            r.last_index_hash == last_index_hash,
    {
        DaemonRecord { host, workspace_path, local_port, remote_port, last_index_hash }
    }

    /// The bytes a publisher writes (write-temp-then-rename is the writer's
    /// concern; these are the full file contents).
    pub fn to_bytes(&self) -> (r: Vec<u8>)
        requires
            self.enc_ok(),
        ensures
            r@ == self.wire_bytes(),
    {
        crate::envelope::encode_rec_record(
            DAEMON_RECORD_TAG,
            self.host.as_str(),
            self.workspace_path.as_str(),
            self.local_port as u64,
            self.remote_port as u64,
            self.last_index_hash,
        )
    }

    /// Decode a record file. Bytes a publisher wrote decode back to the
    /// same record; anything else yields nothing and is treated as "no
    /// daemon".
    pub fn from_bytes(data: &Vec<u8>) -> (r: Option<DaemonRecord>)
        ensures
            match r {
                Some(d) => d.enc_ok() && crate::envelope::is_rec_record_at(
                    data@,
                    DAEMON_RECORD_TAG,
                    d.host@,
                    d.workspace_path@,
                    d.local_port as u64,
                    d.remote_port as u64,
                    d.last_index_hash,
                ),
                None => true,
            },
            forall|m: DaemonRecord|
                m.enc_ok() && data@ == #[trigger] m.wire_bytes() ==> match r {
                    Some(d) => d.eqv(&m),
                    None => false,
                },
    {
        let parsed = match crate::envelope::parse_rec_record(data) {
            Some(p) => p,
            None => {
                return None;
            },
        };
        let (tag, host, workspace_path, a, b, c) = parsed;
        if tag != DAEMON_RECORD_TAG {
            proof {
                assert forall|m: DaemonRecord|
                    m.enc_ok() && data@ == #[trigger] m.wire_bytes() implies false by {
                    assert(data@ == crate::envelope::rec_record(
                        DAEMON_RECORD_TAG,
                        m.host@,
                        m.workspace_path@,
                        m.local_port as u64,
                        m.remote_port as u64,
                        m.last_index_hash,
                    ));
                }
            }
            return None;
        }
        if a > 0xffff || b > 0xffff {
            proof {
                assert forall|m: DaemonRecord|
                    m.enc_ok() && data@ == #[trigger] m.wire_bytes() implies false by {
                    assert(data@ == crate::envelope::rec_record(
                        DAEMON_RECORD_TAG,
                        m.host@,
                        m.workspace_path@,
                        m.local_port as u64,
                        m.remote_port as u64,
                        m.last_index_hash,
                    ));
                }
            }
            return None;
        }
        proof {
            let (h, p1, p2) = choose|h: Seq<u8>, p1: Seq<u8>, p2: Seq<u8>|
                data@ == h + crate::wire::mp_u64(tag) + p1 + p2 + crate::wire::mp_u64(a)
                    + crate::wire::mp_u64(b) + crate::wire::mp_u64(c) && crate::wire::is_arr_hdr(
                    h,
                    6,
                ) && crate::wire::is_str_at(p1, host@) && crate::wire::is_str_at(
                    p2,
                    workspace_path@,
                );
            crate::wire::lemma_is_str_at_fits(p1, host@);
            crate::wire::lemma_is_str_at_fits(p2, workspace_path@);
        }
        Some(
            DaemonRecord {
                host,
                workspace_path,
                local_port: a as u16,
                remote_port: b as u16,
                last_index_hash: c,
            },
        )
    }
}

/// `c` is one of the ten decimal digits.
pub open spec fn is_ascii_digit(c: char) -> bool {
    48 <= c as u32 <= 57
}

/// Every character of `s` is a decimal digit.
pub open spec fn all_digits(s: Seq<char>) -> bool {
    forall|k: int| 0 <= k < s.len() ==> is_ascii_digit(#[trigger] s[k])
}

/// The number a digit string denotes.
pub open spec fn spec_digits_val(s: Seq<char>) -> int
    decreases s.len(),
{
    if s.len() == 0 {
        0
    } else {
        spec_digits_val(s.drop_last()) * 10 + ((s.last() as u32) as int - 48)
    }
}

/// A digit string denotes a number at least zero.
pub proof fn lemma_digits_val_nonneg(s: Seq<char>)
    requires
        all_digits(s),
    ensures
        spec_digits_val(s) >= 0,
    decreases s.len(),
{
    if s.len() > 0 {
        assert(all_digits(s.drop_last()));
        lemma_digits_val_nonneg(s.drop_last());
    }
}

/// A prefix of a digit string never denotes more than the whole string.
pub proof fn lemma_digits_val_monotone(s: Seq<char>, j: int)
    requires
        all_digits(s),
        0 <= j <= s.len(),
    ensures
        spec_digits_val(s.take(j)) <= spec_digits_val(s),
    decreases s.len() - j,
{
    if j == s.len() {
        assert(s.take(j) =~= s);
    } else {
        assert(s.take(j + 1).drop_last() =~= s.take(j));
        assert(s.take(j + 1).last() == s[j]);
        assert(all_digits(s.take(j)));
        lemma_digits_val_nonneg(s.take(j));
        assert(spec_digits_val(s.take(j + 1)) == spec_digits_val(s.take(j)) * 10 + ((s[j] as u32)
            as int - 48));
        lemma_digits_val_monotone(s, j + 1);
    }
}

/// Parse a daemon address of the form `host:port`. The host is everything
/// up to the last `:`; the port is the decimal number after it. Anything
/// else — no colon, an empty or non-numeric port, a port above 65535 —
/// yields nothing and is treated as "no daemon".
pub fn parse_addr(s: &String) -> (r: Option<(String, u16)>)
    ensures
        ({
            let i = spec_split_after(s@, ':');
            let digits = s@.subrange(i, s@.len() as int);
            match r {
                Some(hp) => i >= 1 && hp.0@ == s@.subrange(0, i - 1) && digits.len() >= 1
                    && all_digits(digits) && hp.1 as int == spec_digits_val(digits),
                None => !(i >= 1 && digits.len() >= 1 && all_digits(digits) && spec_digits_val(
                    digits,
                ) <= 0xffff),
            }
        }),
{
    let st = s.as_str();
    let n = st.unicode_len();
    let mut i: usize = n;
    while i > 0 && st.get_char(i - 1) != ':'
        invariant
            i <= n,
            n == s@.len(),
            st@ == s@,
            forall|k: int| i <= k < n ==> s@[k] != ':',
        decreases i,
    {
        i = i - 1;
    }
    proof {
        lemma_split_after_at(s@, ':', i as int);
    }
    if i == 0 {
        return None;
    }
    if i == n {
        proof {
            assert(s@.subrange(i as int, n as int) =~= Seq::<char>::empty());
        }
        return None;
    }
    let ghost digits = s@.subrange(i as int, n as int);
    let mut val: u32 = 0;
    let mut k: usize = i;
    while k < n
        invariant
            i <= k <= n,
            i >= 1,
            n == s@.len(),
            st@ == s@,
            digits == s@.subrange(i as int, n as int),
            spec_split_after(s@, ':') == i,
            all_digits(digits.take(k - i)),
            val <= 0xffff,
            val as int == spec_digits_val(digits.take(k - i)),
        decreases n - k,
    {
        let c = st.get_char(k);
        let cv = c as u32;
        if cv < 48 || cv > 57 {
            proof {
                assert(digits[k - i] == s@[k as int]);
                assert(!is_ascii_digit(digits[k - i]));
            }
            return None;
        }
        proof {
            assert(digits.take(k - i + 1).drop_last() =~= digits.take(k - i));
            assert(digits.take(k - i + 1).last() == s@[k as int]);
        }
        let next: u32 = val * 10 + (cv - 48);
        if next > 0xffff {
            proof {
                assert(all_digits(digits.take(k - i + 1)));
                if all_digits(digits) {
                    lemma_digits_val_monotone(digits, k - i + 1);
                }
            }
            return None;
        }
        val = next;
        k = k + 1;
    }
    proof {
        assert(digits.take(n - i) =~= digits);
    }
    let host = st.substring_char(0, i - 1).to_owned();
    Some((host, val as u16))
}

} // verus!
