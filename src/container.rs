//! Containers, the host commands that find them, and the report made for each.
use vstd::prelude::*;
use crate::correlate::{correlate, correlation_of};
use crate::error::{CorrelationError, HostCmdError};
use crate::iplink::collect_chars;
use crate::model::{InterfacePair, InterfaceRecord};
use crate::text::{parse_u32, piece_spans, pieces, span_to_u32, spans_are};
use crate::trim::{is_quote, is_ws, trim_by, trim_quotes, trim_white_space};

verus! {

#[derive(Debug, PartialEq, Eq, Clone, Copy, Structural)]
pub enum ContainerRuntime {
    Docker,
}

/// A running container: its id, the process that holds its namespaces, and
/// the node it runs on when known.
#[derive(Debug, PartialEq, Eq)]
pub struct Container {
    pub id: String,
    pub pid: i32,
    pub node_name: Option<String>,
    pub runtime: ContainerRuntime,
}

/// Why a container could not be resolved to a process.
#[derive(Debug, PartialEq, Eq)]
pub enum ContainerError {
    HostCmd(HostCmdError),
    /// The runtime's answer is not a process id; the answer.
    InvalidPid(String),
}

/// What a command run on the host gave.
#[derive(Debug, PartialEq, Eq)]
pub struct CmdOutput {
    pub success: bool,
    /// The exit code, absent when a signal ended the command.
    pub code: Option<i32>,
    pub stdout: String,
    pub stderr: String,
}

pub open spec fn decimal_digits(n: nat) -> Seq<char>
    decreases n,
{
    let d = seq!['0', '1', '2', '3', '4', '5', '6', '7', '8', '9'][(n % 10) as int];
    if n < 10 {
        seq![d]
    } else {
        decimal_digits(n / 10).push(d)
    }
}

/// An integer written in decimal, with a `-` when it is negative.
pub open spec fn decimal_text(n: int) -> Seq<char> {
    if n < 0 {
        seq!['-'] + decimal_digits((-n) as nat)
    } else {
        decimal_digits(n as nat)
    }
}

/// The decimal digit `d` as a one-character text.
fn digit_string(d: u64) -> (r: String)
    requires
        d < 10,
    ensures
        r@ == seq![seq!['0', '1', '2', '3', '4', '5', '6', '7', '8', '9'][d as int]],
{
    let all = "0123456789";
    proof {
        reveal_strlit("0123456789");
    }
    let r = all.substring_char(d as usize, d as usize + 1).to_owned();
    assert(r@ =~= seq![seq!['0', '1', '2', '3', '4', '5', '6', '7', '8', '9'][d as int]]);
    r
}

/// The decimal digits of `n`, as `Display` writes them.
fn digits_string(n: u64) -> (r: String)
    ensures
        r@ == decimal_digits(n as nat),
    decreases n,
{
    if n < 10 {
        digit_string(n)
    } else {
        let mut s = digits_string(n / 10);
        let d = digit_string(n % 10);
        s.append(d.as_str());
        assert(s@ =~= decimal_digits((n / 10) as nat).push(
            seq!['0', '1', '2', '3', '4', '5', '6', '7', '8', '9'][(n % 10) as int],
        ));
        s
    }
}

/// `n` in decimal, with a `-` when it is negative, as `Display` writes it.
pub(crate) fn decimal_string(n: i64) -> (r: String)
    ensures
        r@ == decimal_text(n as int),
{
    if n < 0 {
        let m: u64 = ((-(n + 1)) as u64) + 1;
        let mut s = String::from_str("-");
        let d = digits_string(m);
        s.append(d.as_str());
        proof {
            reveal_strlit("-");
        }
        assert(s@ =~= seq!['-'] + decimal_digits((-(n as int)) as nat));
        s
    } else {
        digits_string(n as u64)
    }
}

/// `n` in decimal, as `Display` writes it.
pub(crate) fn index_string(n: usize) -> (r: String)
    ensures
        r@ == decimal_text(n as int),
{
    digits_string(n as u64)
}

pub open spec fn strings_view(v: Seq<String>) -> Seq<Seq<char>> {
    v.map_values(|s: String| s@)
}

/// The program and arguments of a command line: the pieces between single
/// spaces; `None` when the program is empty.
pub open spec fn cmd_parts(cmd: Seq<char>) -> Option<(Seq<char>, Seq<Seq<char>>)> {
    let ps = pieces(cmd, ' ');
    if ps[0].len() == 0 {
        None
    } else {
        Some((ps[0], ps.skip(1)))
    }
}

proof fn lemma_pieces_nonempty(s: Seq<char>, sep: char)
    ensures
        pieces(s, sep).len() >= 1,
{
}

/// Splits a command line into its program and arguments.
pub fn split_host_cmd(cmd: &str) -> (r: Result<(String, Vec<String>), HostCmdError>)
    ensures
        match cmd_parts(cmd@) {
            None => r matches Err(HostCmdError::CmdInvalid(c)) && c@ == cmd@,
            Some(p) => r matches Ok(v) && v.0@ == p.0 && strings_view(v.1@) == p.1,
        },
{
    let cs = collect_chars(cmd);
    let sp = piece_spans(&cs, ' ');
    proof {
        lemma_pieces_nonempty(cs@, ' ');
    }
    let ghost ps = pieces(cmd@, ' ');
    let (a, b) = sp[0];
    if a == b {
        return Err(HostCmdError::CmdInvalid(cmd.to_owned()));
    }
    let prog = cmd.substring_char(a, b).to_owned();
    let mut args: Vec<String> = Vec::new();
    let mut i: usize = 1;
    while i < sp.len()
        invariant
            cs@ == cmd@,
            spans_are(cs@, sp@, ps),
            1 <= i <= sp.len(),
            strings_view(args@) == ps.skip(1).take(i - 1),
        decreases sp.len() - i,
    {
        let (c, d) = sp[i];
        let arg = cmd.substring_char(c, d).to_owned();
        assert(strings_view(args@.push(arg)) =~= strings_view(args@).push(arg@));
        assert(ps.skip(1).take(i as int) =~= ps.skip(1).take(i - 1).push(ps[i as int]));
        args.push(arg);
        i = i + 1;
    }
    assert(ps.skip(1).take(i - 1) =~= ps.skip(1));
    Ok((prog, args))
}

fn not_available() -> (r: String)
    ensures
        r@ == "N/A"@,
{
    String::from_str("N/A")
}

/// What a command gave, read as its result: its trimmed output on success,
/// else its exit code (`N/A` for none) and trimmed error output.
pub open spec fn cmd_result_is(cmd: Seq<char>, out: CmdOutput, r: Result<String, HostCmdError>) -> bool {
    if out.success {
        r matches Ok(s) && s@ == trim_by(out.stdout@, is_ws())
    } else {
        r matches Err(HostCmdError::CmdFailed { cmd: c, code, stderr }) && c@ == cmd && code@ == (
        match out.code {
            Some(n) => decimal_text(n as int),
            None => "N/A"@,
        }) && stderr@ == trim_by(out.stderr@, is_ws())
    }
}

/// Reads what a command gave as its result.
pub fn host_cmd_result(cmd: &str, out: CmdOutput) -> (r: Result<String, HostCmdError>)
    ensures
        cmd_result_is(cmd@, out, r),
{
    if out.success {
        Ok(trim_white_space(out.stdout.as_str()))
    } else {
        let code = match out.code {
            Some(c) => decimal_string(c as i64),
            None => not_available(),
        };
        Err(
            HostCmdError::CmdFailed {
                cmd: cmd.to_owned(),
                code,
                stderr: trim_white_space(out.stderr.as_str()),
            },
        )
    }
}

/// Runs a command line on the host through `exec`, which starts the program
/// with its arguments and gives what it printed, or why it could not run.
pub fn run_host_cmd<F: Fn(String, Vec<String>) -> Result<CmdOutput, String>>(cmd: &str, exec: &F) -> (r:
    Result<String, HostCmdError>)
    requires
        forall|p: String, a: Vec<String>| exec.requires((p, a)),
    ensures
        cmd_parts(cmd@) is None ==> (r matches Err(HostCmdError::CmdInvalid(c)) && c@ == cmd@),
        cmd_parts(cmd@) is Some ==> exists|p: String, a: Vec<String>, res: Result<CmdOutput, String>|
            {
                &&& cmd_parts(cmd@) == Some((p@, strings_view(a@)))
                &&& #[trigger] exec.ensures((p, a), res)
                &&& match res {
                    Ok(out) => cmd_result_is(cmd@, out, r),
                    Err(_) => r matches Err(HostCmdError::CmdNotRun { cmd: c, .. }) && c@ == cmd@,
                }
            },
{
    let (prog, args) = match split_host_cmd(cmd) {
        Ok(v) => v,
        Err(e) => return Err(e),
    };
    let ghost p = prog;
    let ghost a = args;
    let res = exec(prog, args);
    let r = match res {
        Ok(out) => host_cmd_result(cmd, out),
        Err(reason) => Err(HostCmdError::CmdNotRun { cmd: cmd.to_owned(), reason }),
    };
    assert(exec.ensures((p, a), res));
    r
}

/// The process id in what `docker inspect` printed: a number, possibly
/// between single quotes, that fits an `i32`.
pub open spec fn docker_pid(output: Seq<char>) -> Option<i32> {
    match parse_u32(trim_by(output, is_quote())) {
        Some(n) => if n <= i32::MAX {
            Some(n as i32)
        } else {
            None
        },
        None => None,
    }
}

/// Reads the process id that `docker inspect` printed.
pub fn parse_docker_pid(output: &str) -> (r: Option<i32>)
    ensures
        r == docker_pid(output@),
{
    let t = trim_quotes(output);
    let cs = collect_chars(t.as_str());
    assert(cs@.subrange(0, cs@.len() as int) =~= cs@);
    match span_to_u32(&cs, 0, cs.len()) {
        Some(n) => {
            if n <= 2147483647 {
                Some(n as i32)
            } else {
                None
            }
        },
        None => None,
    }
}

/// The container whose runtime answered `output` when asked for its process.
pub fn container_from_inspect(id: String, runtime: ContainerRuntime, output: String) -> (r: Result<
    Container,
    ContainerError,
>)
    ensures
        match docker_pid(output@) {
            Some(pid) => r == Ok::<Container, ContainerError>(
                Container { id, pid, node_name: None, runtime },
            ),
            None => r == Err::<Container, ContainerError>(ContainerError::InvalidPid(output)),
        },
{
    match parse_docker_pid(output.as_str()) {
        Some(pid) => Ok(Container { id, pid, node_name: None, runtime }),
        None => Err(ContainerError::InvalidPid(output)),
    }
}

/// The container found from the runtime's answer: a failed command is the
/// error, else the answer is read as a process id.
pub open spec fn container_result(
    id: String,
    runtime: ContainerRuntime,
    answer: Result<String, HostCmdError>,
) -> Result<Container, ContainerError> {
    match answer {
        Err(e) => Err(ContainerError::HostCmd(e)),
        Ok(output) => match docker_pid(output@) {
            Some(pid) => Ok(Container { id, pid, node_name: None, runtime }),
            None => Err(ContainerError::InvalidPid(output)),
        },
    }
}

/// The command line that asks docker for the process of container `id`.
pub open spec fn inspect_cmd(id: Seq<char>) -> Seq<char> {
    "docker inspect "@ + id + " --format '{{.State.Pid}}'"@
}

fn inspect_cmd_line(id: &String) -> (r: String)
    ensures
        r@ == inspect_cmd(id@),
{
    let mut c = String::from_str("docker inspect ");
    c.append(id.as_str());
    c.append(" --format '{{.State.Pid}}'");
    c
}

impl Container {
    /// Finds the process of container `id` by asking its runtime on the host
    /// through `exec`.
    pub fn new<F: Fn(String, Vec<String>) -> Result<CmdOutput, String>>(
        id: String,
        runtime: ContainerRuntime,
        exec: &F,
    ) -> (r: Result<Container, ContainerError>)
        requires
            forall|p: String, a: Vec<String>| exec.requires((p, a)),
        ensures
            exists|answer: Result<String, HostCmdError>| r == container_result(id, runtime, answer),
            r matches Ok(c) ==> (c.id == id && c.runtime == runtime && c.node_name is None
                && c.pid >= 0),
    {
        let cmd = inspect_cmd_line(&id);
        let answer = run_host_cmd(cmd.as_str(), exec);
        let ghost a = answer;
        let r = match answer {
            Ok(output) => container_from_inspect(id, runtime, output),
            Err(e) => Err(ContainerError::HostCmd(e)),
        };
        assert(r == container_result(id, runtime, a));
        r
    }
}

/// The version line of the program.
pub fn version(semver: &str, commit_date: &str) -> (r: String)
    ensures
        r@ == "cniguru "@ + semver@ + " ("@ + commit_date@ + ")"@,
{
    let mut v = String::from_str("cniguru ");
    v.append(semver);
    v.append(" (");
    v.append(commit_date);
    v.append(")");
    v
}

/// The report for one container: whether it shares the host's network
/// namespace, its veth pairs, and its other interfaces.
#[derive(Debug, PartialEq, Eq)]
pub struct Output {
    pub host_network: bool,
    pub container: Container,
    pub pairs: Vec<InterfacePair>,
    pub interfaces: Vec<InterfaceRecord>,
}

/// Interfaces of a container that could not be paired: the container and why.
#[derive(Debug, PartialEq, Eq)]
pub struct OutputError {
    pub container_id: String,
    pub cause: CorrelationError,
}

/// Builds the report for a container. `container_ns` and `root_ns` identify the
/// container's namespace and the root one; when they are the same the container
/// uses host networking, no pairing is made and every host interface is
/// reported. Otherwise its interfaces are paired with the host's.
pub fn gen_output_for_container(
    container: Container,
    container_ns: u64,
    root_ns: u64,
    container_links: Vec<InterfaceRecord>,
    host_links: Vec<InterfaceRecord>,
    peer_netnsid: Option<i32>,
) -> (r: Result<Output, OutputError>)
    ensures
        container_ns == root_ns ==> (r matches Ok(o) && o.host_network && o.container == container
            && o.pairs@.len() == 0 && o.interfaces@ == host_links@),
        container_ns != root_ns ==> match correlation_of(
            container_links@,
            host_links@,
            peer_netnsid,
        ) {
            Ok(v) => r matches Ok(o) && !o.host_network && o.container == container && o.pairs@
                == v.0 && o.interfaces@ == v.1,
            Err(e) => r == Err::<Output, OutputError>(
                OutputError { container_id: container.id, cause: e },
            ),
        },
{
    if container_ns == root_ns {
        return Ok(
            Output { host_network: true, container, pairs: Vec::new(), interfaces: host_links },
        );
    }
    match correlate(container_links, host_links, peer_netnsid) {
        Ok(c) => Ok(
            Output {
                host_network: false,
                container,
                pairs: c.pairs,
                interfaces: c.unmatched,
            },
        ),
        Err(e) => Err(OutputError { container_id: container.id, cause: e }),
    }
}

} // verus!
