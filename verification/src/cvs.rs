use vstd::prelude::*;
use vstd::string::StringExecFns;

verus! {

/// The argument list of the checkout invocation:
/// `-d <root> checkout -d <target> -R <module>`.
pub fn checkout_args(cvsroot: &str, module: &str, target: &str) -> (r: Vec<String>)
    ensures
        r@.len() == 7,
        r@[0]@ == "-d"@,
        r@[1]@ == cvsroot@,
        r@[2]@ == "checkout"@,
        r@[3]@ == "-d"@,
        r@[4]@ == target@,
        r@[5]@ == "-R"@,
        r@[6]@ == module@,
{
    let mut r: Vec<String> = Vec::new();
    r.push(String::from_str("-d"));
    r.push(String::from_str(cvsroot));
    r.push(String::from_str("checkout"));
    r.push(String::from_str("-d"));
    r.push(String::from_str(target));
    r.push(String::from_str("-R"));
    r.push(String::from_str(module));
    r
}

/// The argument list adding one path: `add [-kb] <path>`.
pub fn add_args(path: &str, binary: bool) -> (r: Vec<String>)
    ensures
        binary ==> r@.len() == 3 && r@[0]@ == "add"@ && r@[1]@ == "-kb"@ && r@[2]@ == path@,
        !binary ==> r@.len() == 2 && r@[0]@ == "add"@ && r@[1]@ == path@,
{
    let mut r: Vec<String> = Vec::new();
    r.push(String::from_str("add"));
    if binary {
        r.push(String::from_str("-kb"));
    }
    r.push(String::from_str(path));
    r
}

/// The argument list adding one batch of paths: `add [-kb] <path>...`.
pub fn add_chunk_args(paths: &Vec<String>, binary: bool) -> (r: Vec<String>)
    ensures
        r@[0]@ == "add"@,
        binary ==> r@.len() == paths@.len() + 2 && r@[1]@ == "-kb"@ && forall|i: int|
            0 <= i < paths@.len() ==> r@[i + 2]@ == #[trigger] paths.deep_view()[i],
        !binary ==> r@.len() == paths@.len() + 1 && forall|i: int|
            0 <= i < paths@.len() ==> r@[i + 1]@ == #[trigger] paths.deep_view()[i],
{
    let mut r: Vec<String> = Vec::new();
    r.push(String::from_str("add"));
    if binary {
        r.push(String::from_str("-kb"));
    }
    append_paths(&mut r, paths);
    r
}

/// The argument list removing one path: `remove <path>`.
pub fn remove_args(path: &str) -> (r: Vec<String>)
    ensures
        r@.len() == 2,
        r@[0]@ == "remove"@,
        r@[1]@ == path@,
{
    let mut r: Vec<String> = Vec::new();
    r.push(String::from_str("remove"));
    r.push(String::from_str(path));
    r
}

/// The argument list removing one batch of paths: `remove <path>...`.
pub fn remove_chunk_args(paths: &Vec<String>) -> (r: Vec<String>)
    ensures
        r@.len() == paths@.len() + 1,
        r@[0]@ == "remove"@,
        forall|i: int| 0 <= i < paths@.len() ==> r@[i + 1]@ == #[trigger] paths.deep_view()[i],
{
    let mut r: Vec<String> = Vec::new();
    r.push(String::from_str("remove"));
    append_paths(&mut r, paths);
    r
}

/// The argument list committing with a message file: `commit -F <msgfile>`.
pub fn commit_args(msgfile: &str) -> (r: Vec<String>)
    ensures
        r@.len() == 3,
        r@[0]@ == "commit"@,
        r@[1]@ == "-F"@,
        r@[2]@ == msgfile@,
{
    let mut r: Vec<String> = Vec::new();
    r.push(String::from_str("commit"));
    r.push(String::from_str("-F"));
    r.push(String::from_str(msgfile));
    r
}

fn append_paths(r: &mut Vec<String>, paths: &Vec<String>)
    ensures
        final(r)@.len() == old(r)@.len() + paths@.len(),
        forall|i: int| 0 <= i < old(r)@.len() ==> #[trigger] final(r)@[i] == old(r)@[i],
        forall|i: int|
            0 <= i < paths@.len() ==> final(r)@[old(r)@.len() + i]@ == #[trigger] paths.deep_view()[
                i
            ],
{
    let base = r.len();
    let mut i: usize = 0;
    while i < paths.len()
        invariant
            base == old(r)@.len(),
            i <= paths@.len(),
            r@.len() == base + i,
            forall|j: int| 0 <= j < base ==> #[trigger] r@[j] == old(r)@[j],
            forall|j: int|
                0 <= j < i ==> r@[base + j]@ == #[trigger] paths.deep_view()[j],
        decreases paths@.len() - i,
    {
        r.push(paths[i].clone());
        i = i + 1;
    }
}

} // verus!
