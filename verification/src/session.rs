//! Pure logic of the surrounding command-line session: which network
//! interfaces may be offered for selection, credential defaulting, the
//! vendor tool's argument list, job-queue output classification, and the
//! report filename.

use vstd::prelude::*;
use crate::net::Ipv4Address;

verus! {

/// A local interface as the interface provider reports it: its name, its
/// IPv4 address when it has one, and whether it is a loopback interface.
pub struct InterfaceInfo {
    pub name: String,
    pub ip: Option<Ipv4Address>,
    pub is_loopback: bool,
}

/// A non-loopback interface with an IPv4 address: what the responder can
/// bind to.
pub struct NetworkInterface {
    pub name: String,
    pub ip: Ipv4Address,
}

/// An interface is eligible for selection when it is not loopback and has
/// an IPv4 address.
pub open spec fn eligible(x: InterfaceInfo) -> bool {
    !x.is_loopback && x.ip is Some
}

/// `eligible` as a value, for `Seq::filter`.
pub open spec fn eligible_pred() -> spec_fn(InterfaceInfo) -> bool {
    |x: InterfaceInfo| eligible(x)
}

/// Keep the eligible interfaces, in their reported order.
pub fn eligible_interfaces(infos: Vec<InterfaceInfo>) -> (r: Vec<NetworkInterface>)
    ensures
        ({
            let kept = infos@.filter(eligible_pred());
            &&& r@.len() == kept.len()
            &&& forall|j: int|
                0 <= j < r@.len() ==> (#[trigger] r@[j]).name == kept[j].name && r@[j].ip
                    == kept[j].ip.unwrap()
        }),
{
    let n: usize = infos.len();
    let mut r: Vec<NetworkInterface> = Vec::new();
    let mut i: usize = 0;
    proof {
        assert(infos@.subrange(0, 0) =~= Seq::<InterfaceInfo>::empty());
    }
    while i < n
        invariant
            0 <= i <= n,
            n == infos@.len(),
            ({
                let kept = infos@.subrange(0, i as int).filter(eligible_pred());
                &&& r@.len() == kept.len()
                &&& forall|j: int|
                    0 <= j < r@.len() ==> (#[trigger] r@[j]).name == kept[j].name && r@[j].ip
                        == kept[j].ip.unwrap()
            }),
        decreases n - i,
    {
        let info = &infos[i];
        proof {
            reveal_with_fuel(Seq::<InterfaceInfo>::filter, 2);
            let s1 = infos@.subrange(0, i + 1);
            assert(s1.drop_last() =~= infos@.subrange(0, i as int));
            assert(s1.last() == infos@[i as int]);
            assert(s1.filter(eligible_pred()) == if eligible_pred()(s1.last()) {
                s1.drop_last().filter(eligible_pred()).push(s1.last())
            } else {
                s1.drop_last().filter(eligible_pred())
            });
        }
        if !info.is_loopback {
            match &info.ip {
                Some(ip) => {
                    r.push(NetworkInterface { name: info.name.clone(), ip: *ip });
                },
                None => {},
            }
        }
        i = i + 1;
    }
    proof {
        assert(infos@.subrange(0, n as int) =~= infos@);
    }
    r
}

/// Check a one-based menu choice against the number of entries: valid
/// choices name an entry, everything else names none.
pub fn validate_selection(n: usize, count: usize) -> (r: Option<usize>)
    ensures
        1 <= n <= count ==> r == Some((n - 1) as usize),
        !(1 <= n <= count) ==> r is None,
{
    if n >= 1 && n <= count {
        Some(n - 1)
    } else {
        None
    }
}

/// An empty username falls back to the vendor's stock account name.
pub fn resolve_username(input: &str) -> (r: String)
    ensures
        input@.len() == 0 ==> r@ == "root"@,
        input@.len() > 0 ==> r@ == input@,
{
    if input.is_empty() {
        "root".to_owned()
    } else {
        input.to_owned()
    }
}

/// An empty password falls back to the vendor's stock password.
pub fn resolve_password(input: &str) -> (r: String)
    ensures
        input@.len() == 0 ==> r@ == "Password@_"@,
        input@.len() > 0 ==> r@ == input@,
{
    if input.is_empty() {
        "Password@_".to_owned()
    } else {
        input.to_owned()
    }
}

/// The argument list of one vendor tool invocation: the remote address,
/// user and password options, then the subcommand's own arguments.
pub fn racadm_args(ip: &str, user: &str, pass: &str, args: &Vec<String>) -> (r: Vec<String>)
    ensures
        r@.len() == 6 + args@.len(),
        r@[0]@ == "-r"@,
        r@[1]@ == ip@,
        r@[2]@ == "-u"@,
        r@[3]@ == user@,
        r@[4]@ == "-p"@,
        r@[5]@ == pass@,
        forall|j: int| 0 <= j < args@.len() ==> r@[6 + j] == args@[j],
{
    let mut r: Vec<String> = Vec::new();
    r.push("-r".to_owned());
    r.push(ip.to_owned());
    r.push("-u".to_owned());
    r.push(user.to_owned());
    r.push("-p".to_owned());
    r.push(pass.to_owned());
    let n: usize = args.len();
    let mut i: usize = 0;
    while i < n
        invariant
            0 <= i <= n,
            n == args@.len(),
            r@.len() == 6 + i,
            r@[0]@ == "-r"@,
            r@[1]@ == ip@,
            r@[2]@ == "-u"@,
            r@[3]@ == user@,
            r@[4]@ == "-p"@,
            r@[5]@ == pass@,
            forall|j: int| 0 <= j < i ==> r@[6 + j] == args@[j],
        decreases n - i,
    {
        r.push(args[i].clone());
        i = i + 1;
    }
    r
}

/// The text contains the pattern as a contiguous run of characters.
pub open spec fn has_substring(hay: Seq<char>, needle: Seq<char>) -> bool {
    exists|i: int|
        0 <= i <= hay.len() - needle.len() && #[trigger] hay.subrange(i, i + needle.len())
            == needle
}

/// Substring search, character by character.
pub fn contains_substring(hay: &str, needle: &str) -> (r: bool)
    ensures
        r == has_substring(hay@, needle@),
{
    let hlen: usize = hay.unicode_len();
    let nlen: usize = needle.unicode_len();
    if nlen > hlen {
        return false;
    }
    if nlen == 0 {
        proof {
            let i0: int = 0;
            assert(hay@.subrange(i0, i0 + needle@.len()) =~= needle@);
        }
        return true;
    }
    let mut i: usize = 0;
    while i <= hlen - nlen
        invariant
            0 <= i <= hlen - nlen + 1,
            1 <= nlen <= hlen,
            hlen == hay@.len(),
            nlen == needle@.len(),
            forall|i2: int|
                0 <= i2 < i ==> #[trigger] hay@.subrange(i2, i2 + needle@.len()) != needle@,
        decreases hlen - nlen + 1 - i,
    {
        let mut j: usize = 0;
        let mut matched: bool = true;
        while j < nlen
            invariant
                0 <= j <= nlen,
                i + nlen <= hlen,
                hlen == hay@.len(),
                nlen == needle@.len(),
                matched ==> forall|k: int| 0 <= k < j ==> hay@[i + k] == needle@[k],
                !matched ==> hay@.subrange(i as int, i + needle@.len()) != needle@,
            decreases nlen - j,
        {
            if hay.get_char(i + j) != needle.get_char(j) {
                matched = false;
                proof {
                    assert(hay@.subrange(i as int, i + needle@.len())[j as int] == hay@[i + j]);
                }
                j = nlen;
            } else {
                j = j + 1;
            }
        }
        if matched {
            proof {
                assert(hay@.subrange(i as int, i + needle@.len()) =~= needle@);
            }
            return true;
        }
        proof {
            assert(hay@.subrange(i as int, i + needle@.len()) != needle@);
        }
        i = i + 1;
    }
    false
}

/// The decimal digits of a byte value, as ASCII codes, no leading zeros.
pub open spec fn dec_digits(n: u8) -> Seq<u8> {
    if n < 10 {
        seq![(48 + n) as u8]
    } else if n < 100 {
        seq![(48 + n / 10) as u8, (48 + n % 10) as u8]
    } else {
        seq![(48 + n / 100) as u8, (48 + (n / 10) % 10) as u8, (48 + n % 10) as u8]
    }
}

/// Append the decimal digits of a byte.
fn push_dec(v: &mut Vec<u8>, n: u8)
    ensures
        final(v)@ == old(v)@ + dec_digits(n),
{
    if n < 10 {
        v.push(48 + n);
    } else if n < 100 {
        v.push(48 + n / 10);
        v.push(48 + n % 10);
    } else {
        v.push(48 + n / 100);
        v.push(48 + (n / 10) % 10);
        v.push(48 + n % 10);
    }
    proof {
        assert(final(v)@ =~= old(v)@ + dec_digits(n));
    }
}

/// The name of the downloaded report: the remote address with dashes for
/// dots, framed by the report prefix, the timestamp, and the archive
/// suffix — all ASCII.
pub open spec fn report_filename_spec(ip: Ipv4Address, ts: Seq<u8>) -> Seq<u8> {
    seq![84u8, 83u8, 82u8, 95u8] + dec_digits(ip.o0) + seq![45u8] + dec_digits(ip.o1)
        + seq![45u8] + dec_digits(ip.o2) + seq![45u8] + dec_digits(ip.o3) + seq![95u8] + ts
        + seq![46u8, 122u8, 105u8, 112u8]
}

/// Build the report filename from the leased address and a timestamp.
pub fn report_filename(ip: Ipv4Address, ts: &Vec<u8>) -> (r: Vec<u8>)
    ensures
        r@ == report_filename_spec(ip, ts@),
{
    let mut v: Vec<u8> = Vec::new();
    v.push(84);
    v.push(83);
    v.push(82);
    v.push(95);
    push_dec(&mut v, ip.o0);
    v.push(45);
    push_dec(&mut v, ip.o1);
    v.push(45);
    push_dec(&mut v, ip.o2);
    v.push(45);
    push_dec(&mut v, ip.o3);
    v.push(95);
    let n: usize = ts.len();
    let mut i: usize = 0;
    let ghost head = v@;
    while i < n
        invariant
            0 <= i <= n,
            n == ts@.len(),
            v@ == head + ts@.subrange(0, i as int),
        decreases n - i,
    {
        v.push(ts[i]);
        proof {
            assert(v@ =~= head + ts@.subrange(0, i + 1));
        }
        i = i + 1;
    }
    proof {
        assert(ts@.subrange(0, n as int) =~= ts@);
    }
    v.push(46);
    v.push(122);
    v.push(105);
    v.push(112);
    proof {
        assert(v@ =~= report_filename_spec(ip, ts@));
    }
    v
}

/// What one look at the vendor tool's job-queue listing decides.
#[derive(Clone, Copy, PartialEq, Eq, Structural, Debug)]
pub enum JobQueueStatus {
    /// The collection job is listed as completed: stop polling, download.
    Completed,
    /// Neither the collection job nor any job is listed: assume completion.
    Empty,
    /// The job is still listed unfinished: poll again.
    Pending,
}

/// Classification of a job-queue listing: completed when the collection
/// job is reported completed, empty when neither the collection job nor
/// any job identifier is listed, pending otherwise.
pub open spec fn spec_job_queue_status(out: Seq<char>) -> JobQueueStatus {
    if has_substring(out, "SupportAssist Collection"@) && has_substring(out, "Completed"@) {
        JobQueueStatus::Completed
    } else if !has_substring(out, "SupportAssist Collection"@) && !has_substring(out, "JID_"@) {
        JobQueueStatus::Empty
    } else {
        JobQueueStatus::Pending
    }
}

/// Classify one job-queue listing of the vendor tool.
pub fn job_queue_status(listing: &str) -> (r: JobQueueStatus)
    ensures
        r == spec_job_queue_status(listing@),
{
    let has_collection = contains_substring(listing, "SupportAssist Collection");
    let has_completed = contains_substring(listing, "Completed");
    let has_job = contains_substring(listing, "JID_");
    if has_collection && has_completed {
        JobQueueStatus::Completed
    } else if !has_collection && !has_job {
        JobQueueStatus::Empty
    } else {
        JobQueueStatus::Pending
    }
}

} // verus!
