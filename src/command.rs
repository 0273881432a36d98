//! The commands of the binding tool and the decisions they take on their own
//! arguments.
use vstd::prelude::*;
use vstd::string::*;

verus! {

/// The tool as a whole; running it dispatches to one [`Command`].
pub struct BT {}

/// Adds keys to a binding.
pub struct AddCommandHandler {}

/// Deletes keys of a binding, or the whole binding.
pub struct DeleteCommandHandler {}

/// Adds CA certificates to a `ca-certificates` binding.
pub struct CaCertsCommandHandler {}

/// Fetches a buildpack's dependencies into a `dependency-mapping` binding.
pub struct DependencyMappingCommandHandler {}

/// Prints the container arguments that mount the bindings.
pub struct ArgsCommandHandler {}

/// The command a name selects.
pub enum Command {
    Add(AddCommandHandler),
    Delete(DeleteCommandHandler),
    CaCerts(CaCertsCommandHandler),
    DependencyMapping(DependencyMappingCommandHandler),
    Args(ArgsCommandHandler),
}

/// Which command a name selects: 0 `add`, 1 `delete`, 2 `ca-certs`,
/// 3 `dependency-mapping`, 4 `args`.
pub open spec fn command_index(name: Seq<char>) -> Option<int> {
    if name == "add"@ {
        Some(0)
    } else if name == "delete"@ {
        Some(1)
    } else if name == "ca-certs"@ {
        Some(2)
    } else if name == "dependency-mapping"@ {
        Some(3)
    } else if name == "args"@ {
        Some(4)
    } else {
        None
    }
}

impl Command {
    /// The position of the command among the five.
    pub open spec fn index(self) -> int {
        match self {
            Command::Add(_) => 0,
            Command::Delete(_) => 1,
            Command::CaCerts(_) => 2,
            Command::DependencyMapping(_) => 3,
            Command::Args(_) => 4,
        }
    }

    /// The command that `name` selects; `None` for a name that selects none.
    pub fn from_name(name: &str) -> (r: Option<Command>)
        ensures
            match command_index(name@) {
                Some(i) => r matches Some(c) && c.index() == i,
                None => r is None,
            },
    {
        let n = String::from_str(name);
        if n == String::from_str("add") {
            Some(Command::Add(AddCommandHandler {}))
        } else if n == String::from_str("delete") {
            Some(Command::Delete(DeleteCommandHandler {}))
        } else if n == String::from_str("ca-certs") {
            Some(Command::CaCerts(CaCertsCommandHandler {}))
        } else if n == String::from_str("dependency-mapping") {
            Some(Command::DependencyMapping(DependencyMappingCommandHandler {}))
        } else if n == String::from_str("args") {
            Some(Command::Args(ArgsCommandHandler {}))
        } else {
            None
        }
    }
}

/// What the `args` command prints: nothing where the bindings root is missing
/// or holds no binding, the mount arguments where exactly one of the docker
/// and pack flags is given, else an error (`None`).
pub open spec fn args_output_of(root: Seq<char>, root_exists: bool, binding_count: nat, docker: bool, pack: bool) -> Option<Seq<char>> {
    if !root_exists || binding_count == 0 {
        Some(Seq::empty())
    } else if docker != pack {
        Some("--volume "@ + root + ":/bindings --env SERVICE_BINDING_ROOT=/bindings"@)
    } else {
        None
    }
}

impl ArgsCommandHandler {
    /// The text to print for the bindings under `bindings_root`, given
    /// whether that directory exists, how many bindings (directories with a
    /// `type` file) it holds, and which of the docker and pack flags is set.
    /// Fails where both flags or neither are set.
    pub fn output(&self, bindings_root: &str, root_exists: bool, binding_count: usize, docker: bool, pack: bool) -> (r: Option<String>)
        ensures
            match args_output_of(bindings_root@, root_exists, binding_count as nat, docker, pack) {
                Some(t) => r matches Some(s) && s@ == t,
                None => r is None,
            },
    {
        if !root_exists || binding_count == 0 {
            return Some(String::new());
        }
        if docker != pack {
            let mut s = String::from_str("--volume ");
            s.append(bindings_root);
            s.append(":/bindings --env SERVICE_BINDING_ROOT=/bindings");
            Some(s)
        } else {
            None
        }
    }
}

} // verus!

verus! {

/// What `std::path::Path::file_name` gives for a path, as text: its last
/// component where that is a file name.
pub uninterp spec fn file_name_of(path: Seq<char>) -> Option<Seq<char>>;

/// Relies on `std::path::Path::file_name`: the last component of the path,
/// where it is a file name (not `..`, not a root).
#[verifier::external_body]
fn path_file_name(path: &str) -> (r: Option<String>)
    ensures
        match file_name_of(path@) {
            Some(f) => r matches Some(s) && s@ == f,
            None => r is None,
        },
{
    std::path::Path::new(path).file_name().map(|n| n.to_string_lossy().into_owned())
}

/// The decimal digit for `d`.
pub open spec fn digit_char(d: nat) -> char
    recommends
        d < 10,
{
    seq!['0', '1', '2', '3', '4', '5', '6', '7', '8', '9'][d as int]
}

/// The decimal text of a number, without leading zeros.
pub open spec fn decimal_of(n: nat) -> Seq<char>
    decreases n,
{
    if n < 10 {
        seq![digit_char(n)]
    } else {
        decimal_of(n / 10).push(digit_char(n % 10))
    }
}

fn digit_text(d: usize) -> (r: &'static str)
    requires
        d < 10,
    ensures
        r@ == seq![digit_char(d as nat)],
{
    proof {
        reveal_strlit("0");
        reveal_strlit("1");
        reveal_strlit("2");
        reveal_strlit("3");
        reveal_strlit("4");
        reveal_strlit("5");
        reveal_strlit("6");
        reveal_strlit("7");
        reveal_strlit("8");
        reveal_strlit("9");
    }
    let r = if d == 0 {
        "0"
    } else if d == 1 {
        "1"
    } else if d == 2 {
        "2"
    } else if d == 3 {
        "3"
    } else if d == 4 {
        "4"
    } else if d == 5 {
        "5"
    } else if d == 6 {
        "6"
    } else if d == 7 {
        "7"
    } else if d == 8 {
        "8"
    } else {
        "9"
    };
    assert(r@ =~= seq![digit_char(d as nat)]);
    r
}

/// Appends the decimal text of `n` to `s`.
fn append_decimal(s: &mut String, n: usize)
    ensures
        final(s)@ == old(s)@ + decimal_of(n as nat),
    decreases n,
{
    if n >= 10 {
        append_decimal(s, n / 10);
    }
    s.append(digit_text(n % 10));
    assert(decimal_of(n as nat) == if n < 10 {
        seq![digit_char(n as nat)]
    } else {
        decimal_of((n / 10) as nat).push(digit_char((n % 10) as nat))
    });
}

/// The parameter that adds one certificate: `<file name>=@<path>`, or
/// `cert-<i>=@<path>` for a path without a file name.
pub open spec fn cert_param_of(i: nat, path: Seq<char>) -> Seq<char> {
    match file_name_of(path) {
        Some(f) => f + "=@"@ + path,
        None => "cert-"@ + decimal_of(i) + "=@"@ + path,
    }
}

/// The parameter that adds the certificate at `path`, the `index`-th given,
/// where `file_name` is what [`file_name_of`] gives for the path.
pub fn cert_param(index: usize, path: &str, file_name: Option<String>) -> (r: String)
    ensures
        r@ == match file_name {
            Some(f) => f@ + "=@"@ + path@,
            None => "cert-"@ + decimal_of(index as nat) + "=@"@ + path@,
        },
{
    let mut param = match file_name {
        Some(name) => name,
        None => {
            let mut p = String::from_str("cert-");
            append_decimal(&mut p, index);
            p
        },
    };
    param.append("=@");
    param.append(path);
    param
}

impl CaCertsCommandHandler {
    /// The parameters that add the certificates at `certs` to a binding, one
    /// per certificate, in order: each certificate's file is copied into the
    /// key named after its file name.
    pub fn cert_params(&self, certs: &Vec<String>) -> (r: Vec<String>)
        ensures
            r@.len() == certs@.len(),
            forall|i: int| 0 <= i < certs@.len() ==> #[trigger] r@[i]@ == cert_param_of(i as nat, certs@[i]@),
    {
        let mut params: Vec<String> = Vec::new();
        let n = certs.len();
        let mut i: usize = 0;
        while i < n
            invariant
                n == certs@.len(),
                i <= n,
                params@.len() == i,
                forall|j: int| 0 <= j < i ==> #[trigger] params@[j]@ == cert_param_of(j as nat, certs@[j]@),
            decreases n - i,
        {
            let path = certs[i].as_str();
            let param = cert_param(i, path, path_file_name(path));
            params.push(param);
            i = i + 1;
        }
        params
    }
}

} // verus!
