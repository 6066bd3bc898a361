use vstd::prelude::*;
use vstd::string::StringExecFns;

use sha2::{Digest, Sha256};

use crate::text::{copy_string, owned, str_eq};

verus! {

/// The path of the reload web socket.
pub const RELOAD_PATH: &'static str = "/.well-known/yew-lynx/reload";

/// Which guest(s) the development server builds and serves.
#[derive(Clone, Copy, Debug, PartialEq, Eq, Structural)]
pub enum Backend {
    Yew,
    Dioxus,
    All,
}

impl Backend {
    /// Reads a backend name.
    pub fn parse(value: &str) -> (r: Result<Backend, String>)
        ensures
            value@ == "yew"@ ==> r == Ok::<Backend, String>(Backend::Yew),
            value@ == "dioxus"@ ==> r == Ok::<Backend, String>(Backend::Dioxus),
            value@ == "all"@ ==> r == Ok::<Backend, String>(Backend::All),
            value@ != "yew"@ && value@ != "dioxus"@ && value@ != "all"@ ==> (r matches Err(e)
                && e@ == "unsupported backend: "@ + value@),
    {
        proof {
            reveal_strlit("yew");
            reveal_strlit("dioxus");
            reveal_strlit("all");
            assert("dioxus"@.len() != "yew"@.len());
            assert("all"@ != "yew"@) by {
                assert("all"@[0] != "yew"@[0]);
            }
            assert("all"@.len() != "dioxus"@.len());
        }
        if str_eq(value, "yew") {
            Ok(Backend::Yew)
        } else if str_eq(value, "dioxus") {
            Ok(Backend::Dioxus)
        } else if str_eq(value, "all") {
            Ok(Backend::All)
        } else {
            let mut m = owned("unsupported backend: ");
            m.append(value);
            Err(m)
        }
    }
}

/// An ASCII decimal digit.
pub open spec fn is_digit(c: char) -> bool {
    '0' <= c && c <= '9'
}

/// The digits of an unsigned number's text: the text without one leading
/// `+`.
pub open spec fn unsigned_digits(t: Seq<char>) -> Seq<char> {
    if t.len() > 0 && t[0] == '+' {
        t.drop_first()
    } else {
        t
    }
}

/// The value of a run of decimal digits.
pub open spec fn digits_value(d: Seq<char>) -> nat
    decreases d.len(),
{
    if d.len() == 0 {
        0
    } else {
        digits_value(d.drop_last()) * 10 + (d.last() as nat - '0' as nat) as nat
    }
}

/// `t` is the text of a `u16`: an optional `+`, then one or more decimal
/// digits whose value fits in 16 bits.
pub open spec fn is_u16_text(t: Seq<char>) -> bool {
    let d = unsigned_digits(t);
    &&& d.len() > 0
    &&& forall|i: int| 0 <= i < d.len() ==> is_digit(#[trigger] d[i])
    &&& digits_value(d) <= u16::MAX
}

/// The error text `str::parse::<u16>` reports for a text it refuses.
pub uninterp spec fn std_parse_u16_error(text: Seq<char>) -> Seq<char>;

/// Reads a port number with `str::parse::<u16>`, which accepts exactly an
/// optional `+` followed by decimal digits whose value fits.
#[verifier::external_body]
fn parse_u16(text: &str) -> (r: Result<u16, String>)
    ensures
        r is Ok <==> is_u16_text(text@),
        r matches Ok(v) ==> v == digits_value(unsigned_digits(text@)),
        r matches Err(e) ==> e@ == std_parse_u16_error(text@),
{
    text.parse::<u16>().map_err(|e| e.to_string())
}

/// The command line of the development server.  The bind address stays
/// text; the embedding parses it into an address.
#[derive(Debug)]
pub struct Arguments {
    pub backend: Backend,
    pub bind: String,
    pub port: u16,
}

/// The options as they stand after reading the arguments from `i` on, or
/// the first error; `None` asks for the usage text.
pub open spec fn parse_from(
    args: Seq<Seq<char>>,
    i: int,
    backend: Backend,
    bind: Seq<char>,
    port: u16,
) -> Result<Option<(Backend, Seq<char>, u16)>, Seq<char>>
    decreases args.len() - i,
{
    if i >= args.len() {
        if port == 0 {
            Err("port must be between 1 and 65535"@)
        } else {
            Ok(Some((backend, bind, port)))
        }
    } else {
        let a = args[i];
        if a == "--backend"@ {
            if i + 1 >= args.len() {
                Err("--backend requires a value"@)
            } else {
                let v = args[i + 1];
                if v == "yew"@ {
                    parse_from(args, i + 2, Backend::Yew, bind, port)
                } else if v == "dioxus"@ {
                    parse_from(args, i + 2, Backend::Dioxus, bind, port)
                } else if v == "all"@ {
                    parse_from(args, i + 2, Backend::All, bind, port)
                } else {
                    Err("unsupported backend: "@ + v)
                }
            }
        } else if a == "--bind"@ {
            if i + 1 >= args.len() {
                Err("--bind requires a value"@)
            } else {
                parse_from(args, i + 2, backend, args[i + 1], port)
            }
        } else if a == "--port"@ {
            if i + 1 >= args.len() {
                Err("--port requires a value"@)
            } else {
                let t = args[i + 1];
                if is_u16_text(t) {
                    parse_from(args, i + 2, backend, bind, digits_value(unsigned_digits(t)) as u16)
                } else {
                    Err("invalid port: "@ + std_parse_u16_error(t))
                }
            }
        } else if a == "-h"@ || a == "--help"@ {
            Ok(None)
        } else {
            Err("unknown argument: "@ + a)
        }
    }
}

pub open spec fn args_view(args: Seq<String>) -> Seq<Seq<char>> {
    args.map_values(|s: String| s@)
}

impl Arguments {
    /// Reads the arguments that follow the program name.  `Ok(None)` asks
    /// for the usage text.  The defaults are every backend, the unspecified
    /// address and port 8000.
    pub fn parse(args: &Vec<String>) -> (r: Result<Option<Arguments>, String>)
        ensures
            match parse_from(args_view(args@), 0, Backend::All, "0.0.0.0"@, 8000) {
                Ok(None) => r matches Ok(None),
                Ok(Some((b, a, p))) => r matches Ok(Some(x)) && x.backend == b && x.bind@ == a
                    && x.port == p,
                Err(m) => r matches Err(e) && e@ == m,
            },
    {
        let ghost av = args_view(args@);
        let mut backend = Backend::All;
        let mut bind = owned("0.0.0.0");
        let mut port: u16 = 8000;
        let mut i: usize = 0;
        while i < args.len()
            invariant
                av == args_view(args@),
                i <= args@.len(),
                parse_from(av, 0, Backend::All, "0.0.0.0"@, 8000) == parse_from(
                    av,
                    i as int,
                    backend,
                    bind@,
                    port,
                ),
            decreases args@.len() - i,
        {
            let a = args[i].as_str();
            proof {
                assert(av[i as int] == a@);
            }
            if str_eq(a, "--backend") {
                if i + 1 >= args.len() {
                    return Err(owned("--backend requires a value"));
                }
                proof {
                    assert(av[i + 1] == args@[i + 1]@);
                }
                backend = match Backend::parse(args[i + 1].as_str()) {
                    Ok(b) => b,
                    Err(e) => return Err(e),
                };
                i = i + 2;
            } else if str_eq(a, "--bind") {
                if i + 1 >= args.len() {
                    return Err(owned("--bind requires a value"));
                }
                proof {
                    assert(av[i + 1] == args@[i + 1]@);
                }
                bind = copy_string(&args[i + 1]);
                i = i + 2;
            } else if str_eq(a, "--port") {
                if i + 1 >= args.len() {
                    return Err(owned("--port requires a value"));
                }
                proof {
                    assert(av[i + 1] == args@[i + 1]@);
                }
                port = match parse_u16(args[i + 1].as_str()) {
                    Ok(p) => p,
                    Err(e) => {
                        let mut m = owned("invalid port: ");
                        m.append(e.as_str());
                        return Err(m);
                    },
                };
                i = i + 2;
            } else if str_eq(a, "-h") || str_eq(a, "--help") {
                return Ok(None);
            } else {
                let mut m = owned("unknown argument: ");
                m.append(a);
                return Err(m);
            }
        }
        if port == 0 {
            return Err(owned("port must be between 1 and 65535"));
        }
        Ok(Some(Arguments { backend, bind, port }))
    }
}

/// `rel` joined below `root` as a path: `rel` itself under an empty root,
/// else one `/` between the two.
pub open spec fn path_join(root: Seq<char>, rel: Seq<char>) -> Seq<char> {
    if root.len() == 0 {
        rel
    } else if root.last() == '/' {
        root + rel
    } else {
        root + seq!['/'] + rel
    }
}

/// Joins a relative path below `root`.
pub fn join_path(root: &str, rel: &str) -> (r: String)
    ensures
        r@ == path_join(root@, rel@),
{
    let n = root.unicode_len();
    if n == 0 {
        return owned(rel);
    }
    let mut out = owned(root);
    if root.get_char(n - 1) != '/' {
        out.append("/");
        proof {
            reveal_strlit("/");
        }
    }
    out.append(rel);
    proof {
        assert(out@ =~= path_join(root@, rel@));
    }
    out
}

/// The packages to build, the artifacts to serve (URL path and file name)
/// and the paths to watch for one backend.
#[derive(Debug)]
pub struct BuildPlan {
    pub packages: Vec<&'static str>,
    pub artifacts: Vec<(&'static str, &'static str)>,
    pub watch_paths: Vec<String>,
}

/// The watched paths below the root, shared by every backend.
pub open spec fn common_watch() -> Seq<Seq<char>> {
    seq![
        "Cargo.toml"@,
        "Cargo.lock"@,
        "crates/element-bridge-core"@,
        "crates/element-bridge-wasm-guest"@,
        "crates/lynx"@,
    ]
}

/// The watched paths below the root that one backend adds.
pub open spec fn backend_watch(b: Backend) -> Seq<Seq<char>> {
    match b {
        Backend::Yew => seq![
            "examples/counter"@,
            "adapters/yew"@,
            "runtimes/yew"@,
            ".deps/yew/packages/yew"@,
        ],
        Backend::Dioxus => seq!["examples/dioxus-counter"@, "adapters/dioxus"@, "runtimes/dioxus"@],
        Backend::All => seq![
            "examples/counter"@,
            "examples/dioxus-counter"@,
            "adapters/yew"@,
            "adapters/dioxus"@,
            "runtimes/yew"@,
            "runtimes/dioxus"@,
            ".deps/yew/packages/yew"@,
        ],
    }
}

pub open spec fn backend_packages(b: Backend) -> Seq<Seq<char>> {
    match b {
        Backend::Yew => seq!["yew-lynx-counter"@],
        Backend::Dioxus => seq!["lynx-element-bridge-dioxus-counter"@],
        Backend::All => seq!["yew-lynx-counter"@, "lynx-element-bridge-dioxus-counter"@],
    }
}

pub open spec fn backend_artifacts(b: Backend) -> Seq<(Seq<char>, Seq<char>)> {
    match b {
        Backend::Yew => seq![("/yew_lynx_counter.wasm"@, "yew_lynx_counter.wasm"@)],
        Backend::Dioxus => seq![
            ("/lynx_element_bridge_dioxus_counter.wasm"@, "lynx_element_bridge_dioxus_counter.wasm"@),
        ],
        Backend::All => seq![
            ("/yew_lynx_counter.wasm"@, "yew_lynx_counter.wasm"@),
            ("/lynx_element_bridge_dioxus_counter.wasm"@, "lynx_element_bridge_dioxus_counter.wasm"@),
        ],
    }
}

fn push_joined(paths: &mut Vec<String>, root: &str, rel: &str)
    ensures
        final(paths)@.len() == old(paths)@.len() + 1,
        final(paths)@.drop_last() == old(paths)@,
        final(paths)@.last()@ == path_join(root@, rel@),
{
    let p = join_path(root, rel);
    paths.push(p);
    proof {
        assert(final(paths)@.drop_last() =~= old(paths)@);
    }
}

impl BuildPlan {
    /// The plan for `backend` in the workspace at `root`.
    pub fn new(root: &str, backend: Backend) -> (r: BuildPlan)
        ensures
            r.packages@.map_values(|p: &str| p@) == backend_packages(backend),
            r.artifacts@.map_values(|a: (&str, &str)| (a.0@, a.1@)) == backend_artifacts(backend),
            r.watch_paths@.map_values(|p: String| p@) == (common_watch() + backend_watch(
                backend,
            )).map_values(|rel: Seq<char>| path_join(root@, rel)),
    {
        let mut watch_paths: Vec<String> = Vec::new();
        push_joined(&mut watch_paths, root, "Cargo.toml");
        push_joined(&mut watch_paths, root, "Cargo.lock");
        push_joined(&mut watch_paths, root, "crates/element-bridge-core");
        push_joined(&mut watch_paths, root, "crates/element-bridge-wasm-guest");
        push_joined(&mut watch_paths, root, "crates/lynx");
        let packages: Vec<&'static str>;
        let artifacts: Vec<(&'static str, &'static str)>;
        match backend {
            Backend::Yew => {
                push_joined(&mut watch_paths, root, "examples/counter");
                push_joined(&mut watch_paths, root, "adapters/yew");
                push_joined(&mut watch_paths, root, "runtimes/yew");
                push_joined(&mut watch_paths, root, ".deps/yew/packages/yew");
                packages = vec!["yew-lynx-counter"];
                artifacts = vec![("/yew_lynx_counter.wasm", "yew_lynx_counter.wasm")];
            },
            Backend::Dioxus => {
                push_joined(&mut watch_paths, root, "examples/dioxus-counter");
                push_joined(&mut watch_paths, root, "adapters/dioxus");
                push_joined(&mut watch_paths, root, "runtimes/dioxus");
                packages = vec!["lynx-element-bridge-dioxus-counter"];
                artifacts = vec![
                    (
                        "/lynx_element_bridge_dioxus_counter.wasm",
                        "lynx_element_bridge_dioxus_counter.wasm",
                    ),
                ];
            },
            Backend::All => {
                push_joined(&mut watch_paths, root, "examples/counter");
                push_joined(&mut watch_paths, root, "examples/dioxus-counter");
                push_joined(&mut watch_paths, root, "adapters/yew");
                push_joined(&mut watch_paths, root, "adapters/dioxus");
                push_joined(&mut watch_paths, root, "runtimes/yew");
                push_joined(&mut watch_paths, root, "runtimes/dioxus");
                push_joined(&mut watch_paths, root, ".deps/yew/packages/yew");
                packages = vec!["yew-lynx-counter", "lynx-element-bridge-dioxus-counter"];
                artifacts = vec![
                    ("/yew_lynx_counter.wasm", "yew_lynx_counter.wasm"),
                    (
                        "/lynx_element_bridge_dioxus_counter.wasm",
                        "lynx_element_bridge_dioxus_counter.wasm",
                    ),
                ];
            },
        }
        proof {
            assert(packages@.map_values(|p: &str| p@) =~= backend_packages(backend));
            assert(artifacts@.map_values(|a: (&str, &str)| (a.0@, a.1@)) =~= backend_artifacts(
                backend,
            ));
            assert(watch_paths@.map_values(|p: String| p@) =~= (common_watch() + backend_watch(
                backend,
            )).map_values(|rel: Seq<char>| path_join(root@, rel)));
        }
        BuildPlan { packages, artifacts, watch_paths }
    }
}

/// How a watched file changed, as the watcher reports it.
#[derive(Clone, Copy, Debug, PartialEq, Eq, Structural)]
pub enum ModifyKind {
    Any,
    Data,
    Metadata,
    Name,
    Other,
}

/// What happened to a watched path.
#[derive(Clone, Copy, Debug, PartialEq, Eq, Structural)]
pub enum WatchEventKind {
    Any,
    Access,
    Create,
    Modify(ModifyKind),
    Remove,
    Other,
}

/// An event that may have changed sources: anything but reads, metadata
/// changes and unclassified events.
pub open spec fn source_change(kind: WatchEventKind) -> bool {
    match kind {
        WatchEventKind::Any | WatchEventKind::Create | WatchEventKind::Remove => true,
        WatchEventKind::Modify(m) => !(m is Metadata),
        _ => false,
    }
}

pub fn is_source_change(kind: WatchEventKind) -> (r: bool)
    ensures
        r == source_change(kind),
{
    match kind {
        WatchEventKind::Any | WatchEventKind::Create | WatchEventKind::Remove => true,
        WatchEventKind::Modify(m) => match m {
            ModifyKind::Any | ModifyKind::Data | ModifyKind::Name | ModifyKind::Other => true,
            ModifyKind::Metadata => false,
        },
        WatchEventKind::Access | WatchEventKind::Other => false,
    }
}

/// The SHA-256 digest of `bytes`.
pub uninterp spec fn sha256(bytes: Seq<u8>) -> Seq<u8>;

/// Hashes with sha2's SHA-256; the digest has 32 bytes.
#[verifier::external_body]
fn sha256_digest(bytes: &[u8]) -> (r: Vec<u8>)
    ensures
        r@ == sha256(bytes@),
        r@.len() == 32,
{
    Sha256::digest(bytes).to_vec()
}

pub open spec fn hex_digit(d: int) -> char {
    if d < 10 {
        (48 + d) as char
    } else {
        (87 + d) as char
    }
}

/// Lowercase hexadecimal, two digits per byte.
pub open spec fn hex_spec(b: Seq<u8>) -> Seq<char>
    decreases b.len(),
{
    if b.len() == 0 {
        Seq::empty()
    } else {
        hex_spec(b.drop_last()) + seq![hex_digit((b.last() / 16) as int), hex_digit((b.last() % 16) as int)]
    }
}

fn hex_char(d: u8) -> (r: &'static str)
    requires
        d < 16,
    ensures
        r@ == seq![hex_digit(d as int)],
{
    proof {
        reveal_strlit("0");
        reveal_strlit("1");
        reveal_strlit("2");
        reveal_strlit("3");
        reveal_strlit("4");
        reveal_strlit("5");
        reveal_strlit("6");
        reveal_strlit("7");
        reveal_strlit("8");
        reveal_strlit("9");
        reveal_strlit("a");
        reveal_strlit("b");
        reveal_strlit("c");
        reveal_strlit("d");
        reveal_strlit("e");
        reveal_strlit("f");
    }
    let r = match d {
        0 => "0",
        1 => "1",
        2 => "2",
        3 => "3",
        4 => "4",
        5 => "5",
        6 => "6",
        7 => "7",
        8 => "8",
        9 => "9",
        10 => "a",
        11 => "b",
        12 => "c",
        13 => "d",
        14 => "e",
        _ => "f",
    };
    proof {
        assert(r@ =~= seq![hex_digit(d as int)]);
    }
    r
}

/// The bytes as lowercase hexadecimal.
pub fn hex_lower(bytes: &[u8]) -> (r: String)
    ensures
        r@ == hex_spec(bytes@),
{
    let mut out = String::new();
    let mut i: usize = 0;
    while i < bytes.len()
        invariant
            i <= bytes@.len(),
            out@ == hex_spec(bytes@.subrange(0, i as int)),
        decreases bytes@.len() - i,
    {
        let b = bytes[i];
        out.append(hex_char(b / 16));
        out.append(hex_char(b % 16));
        proof {
            let s = bytes@.subrange(0, i + 1);
            assert(s.drop_last() =~= bytes@.subrange(0, i as int));
            assert(s.last() == b);
            assert(out@ =~= hex_spec(s));
        }
        i = i + 1;
    }
    proof {
        assert(bytes@.subrange(0, i as int) =~= bytes@);
    }
    out
}

/// One served artifact as the reload protocol describes it.
#[derive(Clone, Debug, PartialEq, Eq)]
pub struct ArtifactState {
    pub path: &'static str,
    pub sha256: String,
    pub size: u64,
}

/// The reload protocol message: version, build generation and artifacts.
#[derive(Clone, Debug, PartialEq, Eq)]
pub struct ReloadState {
    pub v: u8,
    pub generation: u64,
    pub artifacts: Vec<ArtifactState>,
}

/// Describes a built artifact served at `path`: its SHA-256 in lowercase
/// hexadecimal and its size.
pub fn artifact_state(path: &'static str, bytes: &[u8]) -> (r: ArtifactState)
    requires
        bytes@.len() <= u64::MAX,
    ensures
        r.path == path,
        r.sha256@ == hex_spec(sha256(bytes@)),
        r.size == bytes@.len(),
{
    let digest = sha256_digest(bytes);
    ArtifactState { path, sha256: hex_lower(digest.as_slice()), size: bytes.len() as u64 }
}

/// What the server does once a build has finished.
#[derive(Clone, Copy, Debug, PartialEq, Eq, Structural)]
pub enum BuildAction {
    /// Sources changed while building: discard the build and build again.
    Rebuild,
    /// Publish the build as this generation.
    Publish(u64),
    /// The build failed: keep serving the previous one.
    KeepPrevious,
}

/// Decides what follows a build: a failed build keeps the previous guest, a
/// build that raced a source change is rebuilt, and any other build is
/// published as the next generation.
pub fn after_build(succeeded: bool, changed_during_build: bool, generation: u64) -> (r: (
    BuildAction,
    u64,
))
    requires
        generation < u64::MAX,
    ensures
        !succeeded ==> r == (BuildAction::KeepPrevious, generation),
        succeeded && changed_during_build ==> r == (BuildAction::Rebuild, generation),
        succeeded && !changed_during_build ==> r == (BuildAction::Publish(
            (generation + 1) as u64,
        ), (generation + 1) as u64),
{
    if !succeeded {
        return (BuildAction::KeepPrevious, generation);
    }
    if changed_during_build {
        return (BuildAction::Rebuild, generation);
    }
    let next = generation + 1;
    (BuildAction::Publish(next), next)
}

/// Which watcher events rebuild: any event that adds, removes or renames a
/// file or changes its contents (and an unclassified one) is a source
/// change; reading a file, touching only its metadata, and other events are
/// not.
pub proof fn lemma_source_changes(kind: WatchEventKind)
    ensures
        kind is Create || kind is Remove || kind is Any ==> source_change(kind),
        kind matches WatchEventKind::Modify(m) ==> (source_change(kind) <==> !(m is Metadata)),
        kind is Access || kind is Other ==> !source_change(kind),
        kind matches WatchEventKind::Modify(m) && (m is Data || m is Name) ==> source_change(kind),
{
}

} // verus!
