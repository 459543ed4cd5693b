//! The records of an Nmap scan of one remote address, and the command line
//! that runs it.
use vstd::prelude::*;
use crate::net::{IpAddr, ip_text, ip_to_string};
use crate::model::{ScanResult, ScanStatus};
use crate::text::{lossy_text, owned, utf8_lossy};

verus! {

/// The record of a scan of `ip` over `ports` that is about to start at `now`.
pub fn pending_scan_at(ip: IpAddr, ports: &String, now: i64) -> (r: ScanResult)
    ensures
        r.dst_ip == ip,
        r.ts == now,
        r.status == ScanStatus::Pending,
        r.ports == Some(*ports),
        r.result_raw is None,
{
    ScanResult { dst_ip: ip, ts: now, status: ScanStatus::Pending, ports: Some(ports.clone()), result_raw: None }
}

/// The record of a scan of `ip` over `ports` that is about to start now, by the clock.
pub fn pending_scan(ip: IpAddr, ports: &String) -> (r: ScanResult)
    ensures
        r.dst_ip == ip,
        r.status == ScanStatus::Pending,
        r.ports == Some(*ports),
        r.result_raw is None,
{
    pending_scan_at(ip, ports, crate::clock::now_timestamp())
}

/// `-sC`, `-sV`, `-p`, the ports, `-oX`, `-`, and the address.
pub open spec fn nmap_arg_texts(ports: Seq<char>, ip: IpAddr) -> Seq<Seq<char>> {
    seq![
        seq!['-', 's', 'C'],
        seq!['-', 's', 'V'],
        seq!['-', 'p'],
        ports,
        seq!['-', 'o', 'X'],
        seq!['-'],
        ip_text(ip),
    ]
}

/// The arguments given to `nmap`: default scripts, version detection, the
/// ports, XML on standard output, and the address.
pub fn nmap_args(ports: &String, ip: IpAddr) -> (args: Vec<String>)
    ensures
        args@.len() == 7,
        forall|i: int| 0 <= i < 7 ==> (#[trigger] args@[i])@ == nmap_arg_texts(ports@, ip)[i],
{
    proof {
        reveal_strlit("-sC");
        reveal_strlit("-sV");
        reveal_strlit("-p");
        reveal_strlit("-oX");
        reveal_strlit("-");
    }
    let mut args: Vec<String> = Vec::new();
    let a0 = owned("-sC");
    let a1 = owned("-sV");
    let a2 = owned("-p");
    let a4 = owned("-oX");
    let a5 = owned("-");
    let a6 = ip_to_string(ip);
    assert(a0@ =~= seq!['-', 's', 'C']);
    assert(a1@ =~= seq!['-', 's', 'V']);
    assert(a2@ =~= seq!['-', 'p']);
    assert(a4@ =~= seq!['-', 'o', 'X']);
    assert(a5@ =~= seq!['-']);
    args.push(a0);
    args.push(a1);
    args.push(a2);
    args.push(ports.clone());
    args.push(a4);
    args.push(a5);
    args.push(a6);
    args
}

/// How running `nmap` went.
#[derive(Clone, Debug)]
pub enum ScanRun {
    /// The process ran and exited, successfully or not, with these outputs.
    Exited { success: bool, stdout: Vec<u8>, stderr: Vec<u8> },
    /// The process could not be run; the error's text.
    NotStarted(String),
}

/// `failed to run nmap: `
pub open spec fn not_started_prefix() -> Seq<char> {
    seq!['f', 'a', 'i', 'l', 'e', 'd', ' ', 't', 'o', ' ', 'r', 'u', 'n', ' ', 'n', 'm', 'a', 'p', ':', ' ']
}

/// The status and raw result that a run leaves: done with the standard
/// output after a successful exit, failed with the standard error after an
/// unsuccessful one, failed with the error's text when `nmap` did not start.
pub open spec fn run_outcome(run: ScanRun) -> (ScanStatus, Seq<char>) {
    match run {
        ScanRun::Exited { success, stdout, stderr } => if success {
            (ScanStatus::Done, lossy_text(stdout@))
        } else {
            (ScanStatus::Failed, lossy_text(stderr@))
        },
        ScanRun::NotStarted(e) => (ScanStatus::Failed, not_started_prefix() + e@),
    }
}

/// The record of a scan once `nmap` has run, stamped `now`.
pub fn finish_scan_at(record: ScanResult, run: ScanRun, now: i64) -> (r: ScanResult)
    ensures
        r.dst_ip == record.dst_ip,
        r.ports == record.ports,
        r.ts == now,
        r.status == run_outcome(run).0,
        r.result_raw matches Some(t) && t@ == run_outcome(run).1,
{
    let ghost run0 = run;
    let (status, text) = match run {
        ScanRun::Exited { success, stdout, stderr } => {
            if success {
                (ScanStatus::Done, utf8_lossy(stdout.as_slice()))
            } else {
                (ScanStatus::Failed, utf8_lossy(stderr.as_slice()))
            }
        },
        ScanRun::NotStarted(e) => {
            proof { reveal_strlit("failed to run nmap: "); }
            let mut t = owned("failed to run nmap: ");
            assert(t@ =~= not_started_prefix());
            t.append(e.as_str());
            (ScanStatus::Failed, t)
        },
    };
    ScanResult { dst_ip: record.dst_ip, ts: now, status, ports: record.ports, result_raw: Some(text) }
}

/// The record of a scan once `nmap` has run, stamped now by the clock.
pub fn finish_scan(record: ScanResult, run: ScanRun) -> (r: ScanResult)
    ensures
        r.dst_ip == record.dst_ip,
        r.ports == record.ports,
        r.status == run_outcome(run).0,
        r.result_raw matches Some(t) && t@ == run_outcome(run).1,
{
    finish_scan_at(record, run, crate::clock::now_timestamp())
}

} // verus!
