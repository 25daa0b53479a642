//! Installation of missing TypeScript declaration packages after an `add`.
use vstd::prelude::*;
use crate::add;
use crate::agent::Agent;
use crate::error::CommandError;
use crate::execute::Invocation;
use crate::fs::{DirPath, Filesystem};
use crate::fs;
use crate::http::HttpClient;
use crate::json;
use crate::text;
use crate::text::texts;

verus! {

/// The package is itself a declaration package.
pub open spec fn is_types_package(package: Seq<char>) -> bool {
    text::starts_with(package, "@types/"@)
}

/// The last `@` before position `i` that is not the first character.
pub open spec fn last_at_before(s: Seq<char>, i: int) -> Option<int>
    decreases i,
{
    if i <= 1 || i > s.len() {
        None
    } else if s[i - 1] == '@' {
        Some(i - 1)
    } else {
        last_at_before(s, i - 1)
    }
}

/// The specifier without its `@version` suffix.
pub open spec fn bare_name(spec: Seq<char>) -> Seq<char> {
    match last_at_before(spec, spec.len() as int) {
        Some(i) => spec.subrange(0, i),
        None => spec,
    }
}

/// The declaration package of a dependency specifier: `@types/name` for
/// `name`, `@types/scope__name` for `@scope/name`, any version dropped.
pub open spec fn types_package_name(spec: Seq<char>) -> Seq<char> {
    let name = bare_name(spec);
    if name.len() > 0 && name[0] == '@' {
        "@types/"@ + text::joined(text::split(name.drop_first(), "/"@), "__"@)
    } else {
        "@types/"@ + name
    }
}

/// Where a package's own manifest sits below a directory.
pub open spec fn package_manifest(package: Seq<char>) -> Seq<char> {
    "node_modules/"@ + package + "/package.json"@
}

/// The registry address of a package.
pub open spec fn registry_url(package: Seq<char>) -> Seq<char> {
    "https://registry.npmjs.org/"@ + package
}

/// The document declares bundled types.
pub open spec fn types_declared(doc: json::Json) -> bool {
    json::get(doc, "types"@) is Some || json::get(doc, "typings"@) is Some
}

/// The nearest manifest of the installed package is found, read, parsed, and
/// declares bundled types.
pub open spec fn has_bundled_types<F: Filesystem>(fs: &F, cwd: Seq<Seq<char>>, package: Seq<char>) -> bool {
    match fs::nearest_file(fs, cwd, package_manifest(package)) {
        None => false,
        Some(path) => match fs.read(path) {
            None => false,
            Some(text) => match json::json_of(text) {
                None => false,
                Some(doc) => types_declared(doc),
            },
        },
    }
}

/// The package's manifest is found by the upward search.
pub open spec fn installed<F: Filesystem>(fs: &F, cwd: Seq<Seq<char>>, package: Seq<char>) -> bool {
    fs::nearest_depth(fs, cwd, package_manifest(package)) is Some
}

/// The registry answers the package's address with success.
pub open spec fn listed<H: HttpClient>(http_client: &H, package: Seq<char>) -> bool {
    http_client.probe(registry_url(package)) == Some(true)
}

/// For each package, whether it ships types (asked of packages that are not
/// declaration packages).
pub open spec fn bundled_answers<F: Filesystem>(fs: &F, cwd: Seq<Seq<char>>, packages: Seq<Seq<char>>) -> Seq<bool> {
    Seq::new(packages.len(), |i: int| !is_types_package(packages[i]) && has_bundled_types(fs, cwd, packages[i]))
}

/// For each package, whether its declaration package is installed (asked
/// only where the package ships no types).
pub open spec fn local_answers<F: Filesystem>(fs: &F, cwd: Seq<Seq<char>>, packages: Seq<Seq<char>>) -> Seq<bool> {
    Seq::new(
        packages.len(),
        |i: int|
            !is_types_package(packages[i]) && !has_bundled_types(fs, cwd, packages[i]) && installed(
                fs,
                cwd,
                types_package_name(packages[i]),
            ),
    )
}

/// For each package, whether the registry has its declaration package (asked
/// only where that is not installed).
pub open spec fn registry_answers<F: Filesystem, H: HttpClient>(
    fs: &F,
    http_client: &H,
    cwd: Seq<Seq<char>>,
    packages: Seq<Seq<char>>,
) -> Seq<bool> {
    Seq::new(
        packages.len(),
        |i: int|
            !is_types_package(packages[i]) && !has_bundled_types(fs, cwd, packages[i]) && !installed(
                fs,
                cwd,
                types_package_name(packages[i]),
            ) && listed(http_client, types_package_name(packages[i])),
    )
}

/// A package gets a declaration package installed: it is not one itself, it
/// ships no types, its declaration package is not installed, and the registry
/// has that declaration package.
pub open spec fn wanted(package: Seq<char>, has_types: bool, exists_locally: bool, in_registry: bool) -> bool {
    !is_types_package(package) && !has_types && !exists_locally && in_registry
}

/// The declaration packages to install for the packages, in their order,
/// given each package's answers.
pub open spec fn selected(
    packages: Seq<Seq<char>>,
    has_types: Seq<bool>,
    exists_locally: Seq<bool>,
    in_registry: Seq<bool>,
) -> Seq<Seq<char>>
    decreases packages.len(),
{
    if packages.len() == 0 {
        seq![]
    } else {
        let i = packages.len() - 1;
        let before = selected(packages.drop_last(), has_types, exists_locally, in_registry);
        if wanted(packages[i], has_types[i], exists_locally[i], in_registry[i]) {
            before.push(types_package_name(packages[i]))
        } else {
            before
        }
    }
}

/// The summary shown before the declaration packages are installed.
pub open spec fn types_heading(count: nat) -> Seq<char> {
    if count == 1 {
        "Installing missing types: "@
    } else {
        "Installing missing types for "@ + text::decimal(count) + " packages: "@
    }
}

/// A batched installation of declaration packages: the summary, the names,
/// and the one `add` that installs them.
#[derive(Debug, Clone, PartialEq, Eq)]
pub struct TypesInstall {
    pub heading: String,
    pub names: String,
    pub invocation: Invocation,
}

/// The installation of the declaration packages `types`: nothing where there
/// are none, else one development `add` of them all with the agent's output
/// silenced.
pub open spec fn installs(
    r: Result<Option<TypesInstall>, CommandError>,
    agent: Agent,
    workspace_root: bool,
    types: Seq<Seq<char>>,
) -> bool {
    if types.len() == 0 {
        r == Ok::<Option<TypesInstall>, CommandError>(None)
    } else if agent is Bun && workspace_root {
        r is Err
    } else {
        r matches Ok(Some(t)) && t.heading@ == types_heading(types.len()) && t.names@
            == text::joined(types, ", "@) && t.invocation@ == add::add_invocation(
            agent,
            true,
            workspace_root,
            types,
            true,
        )
    }
}

/// A declaration package is installed exactly for the requested packages that
/// are not declaration packages themselves, ship no types of their own, have
/// no declaration package installed yet, and whose declaration package the
/// registry has; each once per request, in the requested order.
pub proof fn lemma_selected_members(
    packages: Seq<Seq<char>>,
    has_types: Seq<bool>,
    exists_locally: Seq<bool>,
    in_registry: Seq<bool>,
)
    requires
        has_types.len() == packages.len(),
        exists_locally.len() == packages.len(),
        in_registry.len() == packages.len(),
    ensures
        forall|x: Seq<char>|
            selected(packages, has_types, exists_locally, in_registry).contains(x) <==> exists|i: int|
                0 <= i < packages.len() && wanted(packages[i], has_types[i], exists_locally[i], in_registry[i])
                    && x == #[trigger] types_package_name(packages[i]),
{
    lemma_selected_members_prefix(packages, has_types, exists_locally, in_registry);
}

proof fn lemma_selected_members_prefix(
    packages: Seq<Seq<char>>,
    has_types: Seq<bool>,
    exists_locally: Seq<bool>,
    in_registry: Seq<bool>,
)
    requires
        has_types.len() >= packages.len(),
        exists_locally.len() >= packages.len(),
        in_registry.len() >= packages.len(),
    ensures
        forall|x: Seq<char>|
            selected(packages, has_types, exists_locally, in_registry).contains(x) <==> exists|i: int|
                0 <= i < packages.len() && wanted(packages[i], has_types[i], exists_locally[i], in_registry[i])
                    && x == #[trigger] types_package_name(packages[i]),
    decreases packages.len(),
{
    if packages.len() > 0 {
        let n = packages.len() - 1;
        let up = packages.drop_last();
        lemma_selected_members_prefix(up, has_types, exists_locally, in_registry);
        let before = selected(up, has_types, exists_locally, in_registry);
        let all = selected(packages, has_types, exists_locally, in_registry);
        let t = types_package_name(packages[n]);
        let w = wanted(packages[n], has_types[n], exists_locally[n], in_registry[n]);
        assert(w ==> all == before.push(t));
        assert(!w ==> all == before);
        assert forall|x: Seq<char>|
            all.contains(x) <==> exists|i: int|
                0 <= i < packages.len() && wanted(packages[i], has_types[i], exists_locally[i], in_registry[i])
                    && x == #[trigger] types_package_name(packages[i]) by {
            if all.contains(x) {
                let j = choose|j: int| 0 <= j < all.len() && all[j] == x;
                if j < before.len() {
                    assert(before[j] == x);
                    assert(before.contains(x));
                    let i = choose|i: int|
                        0 <= i < up.len() && wanted(up[i], has_types[i], exists_locally[i], in_registry[i])
                            && x == #[trigger] types_package_name(up[i]);
                    assert(packages[i] == up[i]);
                    assert(x == types_package_name(packages[i]));
                } else {
                    assert(w && x == t);
                }
            }
            if exists|i: int|
                0 <= i < packages.len() && wanted(packages[i], has_types[i], exists_locally[i], in_registry[i])
                    && x == #[trigger] types_package_name(packages[i]) {
                let i = choose|i: int|
                    0 <= i < packages.len() && wanted(packages[i], has_types[i], exists_locally[i], in_registry[i])
                        && x == #[trigger] types_package_name(packages[i]);
                if i < n {
                    assert(up[i] == packages[i]);
                    assert(x == types_package_name(up[i]));
                    assert(before.contains(x));
                    let j = choose|j: int| 0 <= j < before.len() && before[j] == x;
                    assert(all[j] == x);
                } else {
                    assert(all[all.len() - 1] == x);
                }
            }
        }
    }
}


/// Where the last `@` after the first character stands, else the length.
fn version_cut(v: &Vec<char>) -> (r: usize)
    ensures
        r <= v@.len(),
        r as int == match last_at_before(v@, v@.len() as int) {
            Some(i) => i,
            None => v@.len() as int,
        },
{
    let mut i: usize = v.len();
    while i > 1
        invariant
            i <= v@.len(),
            last_at_before(v@, v@.len() as int) == last_at_before(v@, i as int),
        decreases i,
    {
        if v[i - 1] == '@' {
            return i - 1;
        }
        i = i - 1;
    }
    v.len()
}

/// The declaration package of a dependency specifier.
pub fn package_name_to_types_package_name(package: String) -> (r: String)
    ensures
        r@ == types_package_name(package@),
{
    let s = package.as_str();
    let v = text::char_vec(s);
    let cut = version_cut(&v);
    let name = s.substring_char(0, cut);
    assert(name@ == bare_name(package@)) by {
        assert(package@.subrange(0, package@.len() as int) =~= package@);
    }
    let mut r = String::new();
    r.append("@types/");
    if cut > 0 && v[0] == '@' {
        proof {
            reveal_strlit("/");
        }
        let body = name.substring_char(1, cut);
        assert(body@ =~= name@.drop_first());
        let pieces = text::text_split(body, "/");
        assert(text::slice_texts(pieces@) =~= text::split(body@, "/"@));
        let joined = text::join_strs(&pieces, "__");
        r.append(joined.as_str());
    } else {
        r.append(name);
    }
    r
}

/// Where a package's own manifest sits below a directory.
fn package_manifest_path(package: &str) -> (r: String)
    ensures
        r@ == package_manifest(package@),
{
    let mut r = String::new();
    r.append("node_modules/");
    r.append(package);
    r.append("/package.json");
    r
}

/// Whether a `tsconfig.json` is found in `cwd` or an ancestor.
pub fn check_if_ts_repo<F: Filesystem>(fs: &F, cwd: &DirPath) -> (r: bool)
    ensures
        r == fs::nearest_depth(fs, cwd@, "tsconfig.json"@) is Some,
        r <==> exists|k: int| 0 <= k <= cwd@.len() && fs.has(#[trigger] fs::file_text(cwd@.subrange(0, k), "tsconfig.json"@)),
{
    fs::find_in_parents(fs, cwd, "tsconfig.json").is_some()
}

/// Whether the installed package's own manifest, the nearest found by the
/// upward search, declares `types` or `typings`; `false` where it is not
/// found, cannot be read, or is not JSON.
pub fn check_if_package_has_types<F: Filesystem>(fs: &F, cwd: &DirPath, package: &str) -> (r: bool)
    ensures
        r == has_bundled_types(fs, cwd@, package@),
{
    let sub = package_manifest_path(package);
    let path = match fs::find_in_parents(fs, cwd, sub.as_str()) {
        Some(p) => p,
        None => {
            return false;
        },
    };
    let contents = match fs.read_to_string(path.as_str()) {
        Ok(c) => c,
        Err(_) => {
            return false;
        },
    };
    let manifest = match json::parse_json(contents.as_str()) {
        Ok(v) => v,
        Err(_) => {
            return false;
        },
    };
    json::json_get(&manifest, "types").is_some() || json::json_get(&manifest, "typings").is_some()
}

/// Whether the package is installed: its manifest is found by the upward search.
pub fn check_if_package_exists_locally<F: Filesystem>(fs: &F, cwd: &DirPath, package: &str) -> (r: bool)
    ensures
        r == installed(fs, cwd@, package@),
        r <==> exists|k: int|
            0 <= k <= cwd@.len() && fs.has(#[trigger] fs::file_text(cwd@.subrange(0, k), package_manifest(package@))),
{
    let sub = package_manifest_path(package);
    fs::find_in_parents(fs, cwd, sub.as_str()).is_some()
}

/// The registry address of a package.
fn registry_url_of(package: &str) -> (r: String)
    ensures
        r@ == registry_url(package@),
{
    let mut r = String::new();
    r.append("https://registry.npmjs.org/");
    r.append(package);
    r
}

/// Whether the registry answers a request for the package's address with
/// success; a failed request counts as no.
pub fn check_if_package_exists_in_registry<H: HttpClient>(http_client: &H, package: &str) -> (r: bool)
    ensures
        r == listed(http_client, package@),
{
    let url = registry_url_of(package);
    match http_client.request_if_success(url.as_str()) {
        Ok(listed) => listed,
        Err(_) => false,
    }
}

/// The declaration packages to install for the packages, given for each
/// package whether it ships types, whether its declaration package is
/// installed, and whether the registry has that declaration package.
pub fn select_types_packages(
    packages: &[String],
    has_types: &[bool],
    exists_locally: &[bool],
    in_registry: &[bool],
) -> (r: Vec<String>)
    requires
        has_types@.len() == packages@.len(),
        exists_locally@.len() == packages@.len(),
        in_registry@.len() == packages@.len(),
    ensures
        texts(r@) == selected(texts(packages@), has_types@, exists_locally@, in_registry@),
{
    let mut r: Vec<String> = Vec::new();
    let mut i: usize = 0;
    while i < packages.len()
        invariant
            i <= packages@.len(),
            has_types@.len() == packages@.len(),
            exists_locally@.len() == packages@.len(),
            in_registry@.len() == packages@.len(),
            texts(r@) == selected(texts(packages@).subrange(0, i as int), has_types@, exists_locally@, in_registry@),
        decreases packages.len() - i,
    {
        let ghost sub = texts(packages@).subrange(0, i + 1);
        assert(sub.drop_last() =~= texts(packages@).subrange(0, i as int));
        let package = packages[i].as_str();
        if !text::text_starts_with(package, "@types/") && !has_types[i] && !exists_locally[i] && in_registry[i] {
            let name = package_name_to_types_package_name(packages[i].clone());
            let ghost before = r@;
            r.push(name);
            assert(texts(r@) =~= texts(before).push(types_package_name(packages@[i as int]@)));
        }
        i = i + 1;
    }
    assert(texts(packages@).subrange(0, packages@.len() as int) =~= texts(packages@));
    r
}

/// The installation of the declaration packages `types`, if there are any.
pub fn types_install(agent: &Agent, workspace_root: bool, types: &[String]) -> (r: Result<Option<TypesInstall>, CommandError>)
    ensures
        installs(r, *agent, workspace_root, texts(types@)),
{
    if types.len() == 0 {
        return Ok(None);
    }
    let invocation = match add::add(agent, true, workspace_root, types, true) {
        Ok(inv) => inv,
        Err(e) => {
            return Err(e);
        },
    };
    let heading = if types.len() == 1 {
        "Installing missing types: ".to_owned()
    } else {
        let mut h = String::new();
        h.append("Installing missing types for ");
        h.append(text::decimal_text(types.len()).as_str());
        h.append(" packages: ");
        h
    };
    let names = text::join_strings(types, ", ");
    Ok(Some(TypesInstall { heading, names, invocation }))
}

/// After an `add` in a TypeScript project: the one batched installation of
/// the declaration packages that the added packages lack. A package is
/// skipped as soon as one check excludes it; later checks are then not made
/// for it.
pub fn install_ts_types<F: Filesystem, H: HttpClient>(
    fs: &F,
    http_client: &H,
    agent: &Agent,
    cwd: &DirPath,
    packages: &[String],
    workspace_root: bool,
) -> (r: Result<Option<TypesInstall>, CommandError>)
    ensures
        installs(
            r,
            *agent,
            workspace_root,
            selected(
                texts(packages@),
                bundled_answers(fs, cwd@, texts(packages@)),
                local_answers(fs, cwd@, texts(packages@)),
                registry_answers(fs, http_client, cwd@, texts(packages@)),
            ),
        ),
{
    let ghost names = texts(packages@);
    let mut has_types: Vec<bool> = Vec::new();
    let mut exists_locally: Vec<bool> = Vec::new();
    let mut in_registry: Vec<bool> = Vec::new();
    let mut i: usize = 0;
    while i < packages.len()
        invariant
            i <= packages@.len(),
            names == texts(packages@),
            has_types@.len() == i,
            exists_locally@.len() == i,
            in_registry@.len() == i,
            forall|j: int| 0 <= j < i ==> #[trigger] has_types@[j] == bundled_answers(fs, cwd@, names)[j],
            forall|j: int| 0 <= j < i ==> #[trigger] exists_locally@[j] == local_answers(fs, cwd@, names)[j],
            forall|j: int| 0 <= j < i ==> #[trigger] in_registry@[j] == registry_answers(fs, http_client, cwd@, names)[j],
        decreases packages.len() - i,
    {
        let package = packages[i].as_str();
        assert(names[i as int] == package@);
        let mut bundled = false;
        let mut local = false;
        let mut listed = false;
        if !text::text_starts_with(package, "@types/") {
            bundled = check_if_package_has_types(fs, cwd, package);
            if !bundled {
                let name = package_name_to_types_package_name(packages[i].clone());
                local = check_if_package_exists_locally(fs, cwd, name.as_str());
                if !local {
                    listed = check_if_package_exists_in_registry(http_client, name.as_str());
                }
            }
        }
        has_types.push(bundled);
        exists_locally.push(local);
        in_registry.push(listed);
        i = i + 1;
    }
    assert(has_types@ =~= bundled_answers(fs, cwd@, names));
    assert(exists_locally@ =~= local_answers(fs, cwd@, names));
    assert(in_registry@ =~= registry_answers(fs, http_client, cwd@, names));
    let types = select_types_packages(packages, has_types.as_slice(), exists_locally.as_slice(), in_registry.as_slice());
    types_install(agent, workspace_root, types.as_slice())
}

} // verus!
