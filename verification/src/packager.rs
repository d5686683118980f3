use vstd::prelude::*;
use crate::text::prefixed;
use crate::paths::{
    compare_paths, is_absolute, join_path, joined, lemma_path_lt_asymmetric,
    lemma_path_lt_irreflexive, lemma_path_lt_total, lemma_path_lt_transitive, path_is_absolute,
    path_lt, path_text, path_to_text, strip_prefix, stripped, text_equals,
};

verus! {

/// What a deployment package is asked for: the project directory and,
/// optionally, where its Dockerfile and compose file are (each as given,
/// relative to the project directory or absolute).
#[derive(Debug, Clone)]
pub struct PackageRequest {
    pub project_dir: String,
    pub dockerfile: Option<String>,
    pub compose_file: Option<String>,
}

/// A checked project: its name, its canonical directory, its Dockerfile and
/// compose file (relative to the directory), and the files that go into the
/// archive, relative to the directory, in path order and each once.
#[derive(Debug, Clone)]
pub struct ProjectInspection {
    pub project_name: String,
    pub project_dir: Vec<String>,
    pub dockerfile_rel: Vec<String>,
    pub compose_file_rel: Vec<String>,
    pub included_files: Vec<Vec<String>>,
}

/// A project archive: where it was written and what it holds.
#[derive(Debug, Clone)]
pub struct ProjectPackage {
    pub project_name: String,
    pub archive_path: String,
    pub dockerfile_rel: Vec<String>,
    pub compose_file_rel: Vec<String>,
    pub included_files: Vec<Vec<String>>,
}

/// Why a project cannot be packaged. Paths are held as the text they are
/// displayed with; the scanner's and the file system's own errors as their
/// messages.
#[derive(Debug)]
pub enum PackageError {
    InvalidProjectDir(String),
    MissingRequiredFile(String),
    MissingComposeFile,
    RequiredFileIgnored(String),
    PathOutsideProject(String),
    EmptyPackage,
    CreateOutputDir(String),
    Ignore(String),
    Io(String),
}

/// `PackageError` with its texts as character sequences.
pub enum PackageErrorView {
    InvalidProjectDir(Seq<char>),
    MissingRequiredFile(Seq<char>),
    MissingComposeFile,
    RequiredFileIgnored(Seq<char>),
    PathOutsideProject(Seq<char>),
    EmptyPackage,
    CreateOutputDir(Seq<char>),
    Ignore(Seq<char>),
    Io(Seq<char>),
}

impl View for PackageError {
    type V = PackageErrorView;

    open spec fn view(&self) -> PackageErrorView {
        match self {
            PackageError::InvalidProjectDir(t) => PackageErrorView::InvalidProjectDir(t@),
            PackageError::MissingRequiredFile(t) => PackageErrorView::MissingRequiredFile(t@),
            PackageError::MissingComposeFile => PackageErrorView::MissingComposeFile,
            PackageError::RequiredFileIgnored(t) => PackageErrorView::RequiredFileIgnored(t@),
            PackageError::PathOutsideProject(t) => PackageErrorView::PathOutsideProject(t@),
            PackageError::EmptyPackage => PackageErrorView::EmptyPackage,
            PackageError::CreateOutputDir(t) => PackageErrorView::CreateOutputDir(t@),
            PackageError::Ignore(t) => PackageErrorView::Ignore(t@),
            PackageError::Io(t) => PackageErrorView::Io(t@),
        }
    }
}

/// The message of a packaging error.
pub open spec fn package_error_text(e: PackageError) -> Seq<char> {
    match e {
        PackageError::InvalidProjectDir(p) => "项目目录不存在或不是目录: "@ + p@,
        PackageError::MissingRequiredFile(p) => "部署文件不存在: "@ + p@,
        PackageError::MissingComposeFile => "缺少 compose 文件，支持 docker-compose.yml 或 compose.yml"@,
        PackageError::RequiredFileIgnored(p) => "部署文件被 .gitignore 规则排除: "@ + p@,
        PackageError::PathOutsideProject(p) => "文件路径不在项目目录内: "@ + p@,
        PackageError::EmptyPackage => "未找到可归档的项目文件"@,
        PackageError::CreateOutputDir(p) => "创建输出目录失败: "@ + p@,
        PackageError::Ignore(m) => "扫描项目文件失败: "@ + m@,
        PackageError::Io(m) => "IO 错误: "@ + m@,
    }
}

impl PackageError {
    /// The message of the error.
    pub fn message(&self) -> (r: String)
        ensures
            r@ == package_error_text(*self),
    {
        match self {
            PackageError::InvalidProjectDir(p) => prefixed("项目目录不存在或不是目录: ", p.as_str()),
            PackageError::MissingRequiredFile(p) => prefixed("部署文件不存在: ", p.as_str()),
            PackageError::MissingComposeFile => "缺少 compose 文件，支持 docker-compose.yml 或 compose.yml"
                .to_owned(),
            PackageError::RequiredFileIgnored(p) => prefixed("部署文件被 .gitignore 规则排除: ", p.as_str()),
            PackageError::PathOutsideProject(p) => prefixed("文件路径不在项目目录内: ", p.as_str()),
            PackageError::EmptyPackage => "未找到可归档的项目文件".to_owned(),
            PackageError::CreateOutputDir(p) => prefixed("创建输出目录失败: ", p.as_str()),
            PackageError::Ignore(m) => prefixed("扫描项目文件失败: ", m.as_str()),
            PackageError::Io(m) => prefixed("IO 错误: ", m.as_str()),
        }
    }
}

/// One entry met while walking the project directory (with `.gitignore`
/// rules applied): its full path and whether it is a regular file.
#[derive(Debug, Clone)]
pub struct WalkEntry {
    pub path: Vec<String>,
    pub is_file: bool,
}

/// The name of git's own directory.
pub open spec fn git_dir_component() -> Seq<char> {
    seq!['.', 'g', 'i', 't']
}

/// The path, relative to `dir`, under which a walked entry goes into the
/// archive: only regular files strictly inside `dir`, and nothing under a
/// top-level `.git`.
pub open spec fn selected_rel(dir: Seq<Seq<char>>, path: Seq<Seq<char>>, is_file: bool) -> Option<
    Seq<Seq<char>>,
> {
    match stripped(path, dir) {
        Some(rel) => if is_file && rel.len() > 0 && rel[0] != git_dir_component() {
            Some(rel)
        } else {
            None
        },
        None => None,
    }
}

/// The path under which the `k`-th walked entry goes into the archive.
pub open spec fn selected_at(dir: Seq<Seq<char>>, entries: Seq<WalkEntry>, k: int) -> Option<Seq<Seq<char>>> {
    selected_rel(dir, entries[k].path.deep_view(), entries[k].is_file)
}

/// Whether one of the first `n` walked entries goes into the archive as `rel`.
pub open spec fn selected_among(
    dir: Seq<Seq<char>>,
    entries: Seq<WalkEntry>,
    n: int,
    rel: Seq<Seq<char>>,
) -> bool {
    exists|k: int|
        0 <= k < n && #[trigger] selected_at(dir, entries, k)
            == Some(rel)
}

/// Whether one of the walked entries goes into the archive as `rel`.
pub open spec fn selected(dir: Seq<Seq<char>>, entries: Seq<WalkEntry>, rel: Seq<Seq<char>>) -> bool {
    selected_among(dir, entries, entries.len() as int, rel)
}

/// Paths in strictly increasing order (so each at most once).
pub open spec fn sorted_paths(s: Seq<Seq<Seq<char>>>) -> bool {
    forall|i: int, j: int| 0 <= i < j < s.len() ==> path_lt(#[trigger] s[i], #[trigger] s[j])
}

/// Puts `rel` in its place in a sorted list of paths, unless it is there.
fn insert_sorted(files: &mut Vec<Vec<String>>, rel: Vec<String>)
    requires
        sorted_paths(old(files).deep_view()),
    ensures
        sorted_paths(final(files).deep_view()),
        forall|p: Seq<Seq<char>>|
            final(files).deep_view().contains(p) <==> (old(files).deep_view().contains(p) || p
                == rel.deep_view()),
{
    let ghost fv = files.deep_view();
    let ghost rv = rel.deep_view();
    let n = files.len();
    let mut j: usize = n;
    let mut searching = true;
    while searching
        invariant
            fv == files.deep_view(),
            n == files.len(),
            rv == rel.deep_view(),
            j <= n,
            forall|k: int| j <= k < n ==> path_lt(rv, #[trigger] fv[k]),
            !searching ==> (j == 0 || !path_lt(rv, fv[j - 1])),
        decreases j + (if searching { 1int } else { 0int }),
    {
        if j == 0 {
            searching = false;
        } else {
            let c = compare_paths(&rel, &files[j - 1]);
            assert(fv[j - 1] == files@[j - 1].deep_view());
            if c < 0 {
                j = j - 1;
            } else {
                searching = false;
            }
        }
    }
    if j > 0 {
        let c = compare_paths(&files[j - 1], &rel);
        assert(fv[j - 1] == files@[j - 1].deep_view());
        if c == 0 {
            assert(fv.contains(rv));
            return;
        }
        proof {
            lemma_path_lt_total(fv[j - 1], rv);
        }
    }
    let ghost before = files.deep_view();
    files.insert(j, rel);
    let ghost after = files.deep_view();
    assert(after =~= before.insert(j as int, rv));
    assert forall|a: int, b: int| 0 <= a < b < after.len() implies path_lt(
        #[trigger] after[a],
        #[trigger] after[b],
    ) by {
        if b < j {
            assert(after[a] == fv[a] && after[b] == fv[b]);
        } else if b == j {
            assert(after[b] == rv);
            assert(after[a] == fv[a]);
            if a < j - 1 {
                lemma_path_lt_transitive(fv[a], fv[j - 1], rv);
            }
        } else if a == j {
            assert(after[b] == fv[b - 1]);
        } else if a < j {
            assert(after[a] == fv[a] && after[b] == fv[b - 1]);
            if a < j - 1 {
                lemma_path_lt_transitive(fv[a], fv[j - 1], rv);
            }
            lemma_path_lt_transitive(fv[a], rv, fv[b - 1]);
        } else {
            assert(after[a] == fv[a - 1] && after[b] == fv[b - 1]);
        }
    }
    assert forall|p: Seq<Seq<char>>| after.contains(p) <==> (fv.contains(p) || p == rv) by {
        if after.contains(p) {
            let k = choose|k: int| 0 <= k < after.len() && after[k] == p;
            if k < j {
                assert(fv[k] == p);
            } else if k > j {
                assert(fv[k - 1] == p);
            }
        }
        if fv.contains(p) {
            let k = choose|k: int| 0 <= k < fv.len() && fv[k] == p;
            if k < j {
                assert(after[k] == p);
            } else {
                assert(after[k + 1] == p);
            }
        }
        if p == rv {
            assert(after[j as int] == p);
        }
    }
}

/// Chooses, from the entries of a walk of the project directory, the files
/// that go into the archive (`collect_files`): their paths relative to the
/// directory, in path order, each once. A failed walk gives its error; a
/// walk that finds no file gives `EmptyPackage`.
pub fn collect_files(project_dir: &Vec<String>, walk: &Result<Vec<WalkEntry>, String>) -> (r: Result<
    Vec<Vec<String>>,
    PackageError,
>)
    ensures
        match walk {
            Err(e) => r matches Err(err) && err@ == PackageErrorView::Ignore(e@),
            Ok(entries) => match r {
                Ok(files) => {
                    &&& files.len() > 0
                    &&& sorted_paths(files.deep_view())
                    &&& forall|p: Seq<Seq<char>>|
                        files.deep_view().contains(p) <==> selected(
                            project_dir.deep_view(),
                            entries@,
                            p,
                        )
                },
                Err(err) => {
                    &&& err@ == PackageErrorView::EmptyPackage
                    &&& forall|p: Seq<Seq<char>>| !selected(project_dir.deep_view(), entries@, p)
                },
            },
        },
{
    let entries = match walk {
        Err(e) => {
            return Err(PackageError::Ignore(e.clone()));
        },
        Ok(entries) => entries,
    };
    let ghost dir = project_dir.deep_view();
    let mut files: Vec<Vec<String>> = Vec::new();
    for i in 0..entries.len()
        invariant
            dir == project_dir.deep_view(),
            sorted_paths(files.deep_view()),
            forall|p: Seq<Seq<char>>|
                files.deep_view().contains(p) <==> selected_among(dir, entries@, i as int, p),
    {
        let entry = &entries[i];
        proof {
            reveal_strlit(".git");
            assert(".git"@ =~= git_dir_component());
        }
        let ghost chosen = selected_rel(dir, entry.path.deep_view(), entry.is_file);
        let mut inserted = false;
        if entry.is_file {
            match strip_prefix(&entry.path, project_dir) {
                Some(rel) => {
                    if rel.len() > 0 && !text_equals(rel[0].as_str(), ".git") {
                        assert(rel.deep_view()[0] == rel[0]@);
                        assert(chosen == Some(rel.deep_view()));
                        let ghost rv = rel.deep_view();
                        insert_sorted(&mut files, rel);
                        inserted = true;
                        assert forall|p: Seq<Seq<char>>|
                            files.deep_view().contains(p) <==> selected_among(
                                dir,
                                entries@,
                                i + 1,
                                p,
                            ) by {
                            if p == rv {
                                assert(selected_at(dir, entries@, i as int) == Some(p));
                            }
                            if selected_among(dir, entries@, i + 1, p) {
                                let k = choose|k: int|
                                    0 <= k < i + 1 && #[trigger] selected_at(dir, entries@, k) == Some(p);
                                if k < i {
                                    assert(selected_among(dir, entries@, i as int, p));
                                }
                            }
                        }
                    } else {
                        if rel.len() > 0 {
                            assert(rel.deep_view()[0] == rel[0]@);
                        }
                    }
                },
                None => {},
            }
        }
        if !inserted {
            assert(chosen is None);
            assert forall|p: Seq<Seq<char>>|
                files.deep_view().contains(p) <==> selected_among(dir, entries@, i + 1, p) by {
                if selected_among(dir, entries@, i + 1, p) {
                    let k = choose|k: int|
                        0 <= k < i + 1 && #[trigger] selected_at(dir, entries@, k) == Some(p);
                    if k < i {
                        assert(selected_among(dir, entries@, i as int, p));
                    }
                }
            }
        }
    }
    if files.len() == 0 {
        assert forall|p: Seq<Seq<char>>| !selected(dir, entries@, p) by {
            if selected(dir, entries@, p) {
                assert(files.deep_view().contains(p));
            }
        }
        return Err(PackageError::EmptyPackage);
    }
    Ok(files)
}

/// What the file system says of a path: its canonical form, when it exists,
/// and whether that is a regular file.
#[derive(Debug, Clone)]
pub struct FileProbe {
    pub canonical: Option<Vec<String>>,
    pub is_file: bool,
}

/// The canonical path of a probe, as components.
pub open spec fn probe_canonical(p: FileProbe) -> Option<Seq<Seq<char>>> {
    match p.canonical {
        Some(c) => Some(c.deep_view()),
        None => None,
    }
}

/// A result of the packager seen through the views of its parts.
pub open spec fn rel_result(r: Result<Vec<String>, PackageError>) -> Result<Seq<Seq<char>>, PackageErrorView> {
    match r {
        Ok(p) => Ok(p.deep_view()),
        Err(e) => Err(e@),
    }
}

/// A deployment file that must exist: it is found when it exists, is a
/// regular file and lies inside the project directory; its path is then
/// given relative to that directory.
pub open spec fn required_file_outcome(
    dir: Seq<Seq<char>>,
    requested: Seq<char>,
    probe: FileProbe,
) -> Result<Seq<Seq<char>>, PackageErrorView> {
    match probe_canonical(probe) {
        None => Err(PackageErrorView::MissingRequiredFile(requested)),
        Some(c) => if !probe.is_file {
            Err(PackageErrorView::MissingRequiredFile(requested))
        } else {
            match stripped(c, dir) {
                Some(rel) => Ok(rel),
                None => Err(PackageErrorView::PathOutsideProject(path_text(c))),
            }
        },
    }
}

/// Locates a deployment file that must exist, from what the file system
/// says of it (`resolve_required_file`).
pub fn resolve_required_file(project_dir: &Vec<String>, requested: &String, probe: &FileProbe) -> (r:
    Result<Vec<String>, PackageError>)
    ensures
        rel_result(r) == required_file_outcome(project_dir.deep_view(), requested@, *probe),
{
    match &probe.canonical {
        None => Err(PackageError::MissingRequiredFile(requested.clone())),
        Some(canonical) => {
            if !probe.is_file {
                return Err(PackageError::MissingRequiredFile(requested.clone()));
            }
            match strip_prefix(canonical, project_dir) {
                Some(rel) => Ok(rel),
                None => Err(PackageError::PathOutsideProject(path_to_text(canonical))),
            }
        },
    }
}

/// The Dockerfile asked for: the one given, else `Dockerfile`.
pub open spec fn dockerfile_requested(request: PackageRequest) -> Seq<char> {
    match request.dockerfile {
        Some(d) => d@,
        None => "Dockerfile"@,
    }
}

/// The path under which the Dockerfile is looked for.
pub fn dockerfile_candidate(request: &PackageRequest) -> (r: String)
    ensures
        r@ == dockerfile_requested(*request),
{
    match &request.dockerfile {
        Some(d) => d.clone(),
        None => "Dockerfile".to_owned(),
    }
}

/// Locates the Dockerfile (`resolve_dockerfile`), given what the file
/// system says of `dockerfile_candidate(request)`.
pub fn resolve_dockerfile(project_dir: &Vec<String>, request: &PackageRequest, probe: &FileProbe) -> (r:
    Result<Vec<String>, PackageError>)
    ensures
        rel_result(r) == required_file_outcome(
            project_dir.deep_view(),
            dockerfile_requested(*request),
            *probe,
        ),
{
    let candidate = dockerfile_candidate(request);
    resolve_required_file(project_dir, &candidate, probe)
}

/// The paths under which the compose file is looked for, in order: the
/// one given, else `docker-compose.yml` and then `compose.yml`.
pub open spec fn compose_requested(request: PackageRequest) -> Seq<Seq<char>> {
    match request.compose_file {
        Some(c) => seq![c@],
        None => seq!["docker-compose.yml"@, "compose.yml"@],
    }
}

/// The paths under which the compose file is looked for, in order.
pub fn compose_candidates(request: &PackageRequest) -> (r: Vec<String>)
    ensures
        r.deep_view() == compose_requested(*request),
{
    let mut r: Vec<String> = Vec::new();
    match &request.compose_file {
        Some(c) => {
            r.push(c.clone());
        },
        None => {
            r.push("docker-compose.yml".to_owned());
            r.push("compose.yml".to_owned());
        },
    }
    assert(r.deep_view() =~= compose_requested(*request));
    r
}

/// Where the compose file is: a given one must exist as a required file;
/// otherwise the first of `docker-compose.yml` and `compose.yml` that is a
/// regular file in the project directory, and `MissingComposeFile` when
/// neither is.
pub open spec fn compose_outcome(
    dir: Seq<Seq<char>>,
    request: PackageRequest,
    probes: Seq<FileProbe>,
) -> Result<Seq<Seq<char>>, PackageErrorView> {
    match request.compose_file {
        Some(c) => required_file_outcome(dir, c@, probes[0]),
        None => if probes[0].is_file {
            Ok(seq!["docker-compose.yml"@])
        } else if probes[1].is_file {
            Ok(seq!["compose.yml"@])
        } else {
            Err(PackageErrorView::MissingComposeFile)
        },
    }
}

/// Locates the compose file (`resolve_compose_file`), given what the file
/// system says of each of `compose_candidates(request)`, in that order.
pub fn resolve_compose_file(project_dir: &Vec<String>, request: &PackageRequest, probes: &Vec<FileProbe>) -> (r:
    Result<Vec<String>, PackageError>)
    requires
        probes.len() == compose_requested(*request).len(),
    ensures
        rel_result(r) == compose_outcome(project_dir.deep_view(), *request, probes@),
{
    match &request.compose_file {
        Some(c) => resolve_required_file(project_dir, c, &probes[0]),
        None => {
            if probes[0].is_file {
                let mut r: Vec<String> = Vec::new();
                r.push("docker-compose.yml".to_owned());
                assert(r.deep_view() =~= seq!["docker-compose.yml"@]);
                Ok(r)
            } else if probes[1].is_file {
                let mut r: Vec<String> = Vec::new();
                r.push("compose.yml".to_owned());
                assert(r.deep_view() =~= seq!["compose.yml"@]);
                Ok(r)
            } else {
                Err(PackageError::MissingComposeFile)
            }
        },
    }
}

/// A project's name: the name of its directory, else `project`.
pub open spec fn project_name_text(dir_name: Option<String>) -> Seq<char> {
    match dir_name {
        Some(n) => n@,
        None => "project"@,
    }
}

/// The name of a project, from the name of its directory (when it has one
/// that is valid text).
pub fn project_name(dir_name: &Option<String>) -> (r: String)
    ensures
        r@ == project_name_text(*dir_name),
{
    match dir_name {
        Some(n) => n.clone(),
        None => "project".to_owned(),
    }
}

/// What the file system says of the project directory: its canonical path,
/// when it exists; whether that is a directory; and its name, when it has
/// one that is valid text.
#[derive(Debug, Clone)]
pub struct ProjectDirProbe {
    pub canonical: Option<Vec<String>>,
    pub is_dir: bool,
    pub name: Option<String>,
}

/// A project directory: it must exist and be a directory.
pub fn check_project_dir(request: &PackageRequest, canonical: &Option<Vec<String>>, is_dir: bool) -> (r:
    Result<Vec<String>, PackageError>)
    ensures
        match canonical {
            None => r matches Err(e) && e@ == PackageErrorView::InvalidProjectDir(request.project_dir@),
            Some(c) => if is_dir {
                r matches Ok(d) && d.deep_view() == c.deep_view()
            } else {
                r matches Err(e) && e@ == PackageErrorView::InvalidProjectDir(path_text(c.deep_view()))
            },
        },
{
    match canonical {
        None => Err(PackageError::InvalidProjectDir(request.project_dir.clone())),
        Some(c) => if is_dir {
            Ok(c.clone())
        } else {
            Err(PackageError::InvalidProjectDir(path_to_text(c)))
        },
    }
}

/// What the file system says of a project directory: of its Dockerfile, of
/// each of its compose-file candidates, and the walk of its files.
#[derive(Debug)]
pub struct ProjectScan {
    pub dockerfile: FileProbe,
    pub compose: Vec<FileProbe>,
    pub walk: Result<Vec<WalkEntry>, String>,
}

/// The first reason, in the order the checks are made, why a project does
/// not pass inspection: the Dockerfile, the compose file, the walk, an empty
/// project, then each deployment file left out of the archive by the ignore
/// rules.
pub open spec fn inspection_error(dir: Seq<Seq<char>>, request: PackageRequest, scan: ProjectScan) -> Option<
    PackageErrorView,
> {
    match required_file_outcome(dir, dockerfile_requested(request), scan.dockerfile) {
        Err(x) => Some(x),
        Ok(drel) => match compose_outcome(dir, request, scan.compose@) {
            Err(x) => Some(x),
            Ok(crel) => match scan.walk {
                Err(w) => Some(PackageErrorView::Ignore(w@)),
                Ok(entries) => if forall|p: Seq<Seq<char>>| !selected(dir, entries@, p) {
                    Some(PackageErrorView::EmptyPackage)
                } else if !selected(dir, entries@, drel) {
                    Some(PackageErrorView::RequiredFileIgnored(path_text(drel)))
                } else if !selected(dir, entries@, crel) {
                    Some(PackageErrorView::RequiredFileIgnored(path_text(crel)))
                } else {
                    None
                },
            },
        },
    }
}

/// Whether a list of paths holds the given one.
fn contains_path(files: &Vec<Vec<String>>, p: &Vec<String>) -> (r: bool)
    ensures
        r == files.deep_view().contains(p.deep_view()),
{
    let ghost fv = files.deep_view();
    for i in 0..files.len()
        invariant
            fv == files.deep_view(),
            forall|k: int| 0 <= k < i ==> fv[k] != p.deep_view(),
    {
        if compare_paths(&files[i], p) == 0 {
            assert(fv[i as int] == files@[i as int].deep_view());
            return true;
        }
        assert(fv[i as int] == files@[i as int].deep_view());
    }
    false
}

/// Checks the contents of a project directory for deployment, from its
/// canonical path and name and what the file system says of it: the
/// Dockerfile and the compose file must exist inside the project and not be
/// left out of the archive; the archive must hold at least one file.
pub fn inspect_project_dir(
    request: &PackageRequest,
    project_dir: &Vec<String>,
    dir_name: &Option<String>,
    scan: &ProjectScan,
) -> (r: Result<ProjectInspection, PackageError>)
    requires
        scan.compose.len() == compose_requested(*request).len(),
    ensures
        r is Ok <==> inspection_error(project_dir.deep_view(), *request, *scan) is None,
        r matches Err(e) ==> inspection_error(project_dir.deep_view(), *request, *scan) == Some(e@),
        r matches Ok(insp) ==> {
            &&& insp.project_dir.deep_view() == project_dir.deep_view()
            &&& insp.project_name@ == project_name_text(*dir_name)
            &&& required_file_outcome(
                project_dir.deep_view(),
                dockerfile_requested(*request),
                scan.dockerfile,
            ) == Ok::<Seq<Seq<char>>, PackageErrorView>(insp.dockerfile_rel.deep_view())
            &&& compose_outcome(project_dir.deep_view(), *request, scan.compose@) == Ok::<
                Seq<Seq<char>>,
                PackageErrorView,
            >(insp.compose_file_rel.deep_view())
            &&& scan.walk matches Ok(entries) && forall|p: Seq<Seq<char>>|
                insp.included_files.deep_view().contains(p) <==> selected(
                    project_dir.deep_view(),
                    entries@,
                    p,
                )
            &&& sorted_paths(insp.included_files.deep_view())
            &&& insp.included_files.deep_view().contains(insp.dockerfile_rel.deep_view())
            &&& insp.included_files.deep_view().contains(insp.compose_file_rel.deep_view())
        },
{
    let dockerfile_rel = resolve_dockerfile(project_dir, request, &scan.dockerfile)?;
    let compose_file_rel = resolve_compose_file(project_dir, request, &scan.compose)?;
    let included_files = collect_files(project_dir, &scan.walk)?;
    proof {
        let f0 = included_files.deep_view()[0];
        assert(included_files.deep_view().contains(f0));
    }
    if !contains_path(&included_files, &dockerfile_rel) {
        return Err(PackageError::RequiredFileIgnored(path_to_text(&dockerfile_rel)));
    }
    if !contains_path(&included_files, &compose_file_rel) {
        return Err(PackageError::RequiredFileIgnored(path_to_text(&compose_file_rel)));
    }
    Ok(
        ProjectInspection {
            project_name: project_name(dir_name),
            project_dir: project_dir.clone(),
            dockerfile_rel,
            compose_file_rel,
            included_files,
        },
    )
}

/// A path relative to `root`, when it lies under it (`path_relative_to`): a
/// relative path is first taken from the current directory, whose lookup
/// may fail.
pub open spec fn relative_outcome(
    path: Seq<Seq<char>>,
    cwd: Result<Seq<Seq<char>>, Seq<char>>,
    root: Seq<Seq<char>>,
) -> Result<Option<Seq<Seq<char>>>, PackageErrorView> {
    if is_absolute(path) {
        Ok(stripped(path, root))
    } else {
        match cwd {
            Err(e) => Err(PackageErrorView::Io(e)),
            Ok(c) => Ok(stripped(joined(c, path), root)),
        }
    }
}

/// The current directory as a result of views.
pub open spec fn cwd_view(cwd: Result<Vec<String>, String>) -> Result<Seq<Seq<char>>, Seq<char>> {
    match cwd {
        Ok(c) => Ok(c.deep_view()),
        Err(e) => Err(e@),
    }
}

/// Where `path` lies relative to `root`, if under it. `cwd` is the current
/// directory (or why it could not be had); it is read only for a relative
/// `path`.
pub fn path_relative_to(path: &Vec<String>, cwd: &Result<Vec<String>, String>, root: &Vec<String>) -> (r:
    Result<Option<Vec<String>>, PackageError>)
    ensures
        match r {
            Ok(Some(rel)) => relative_outcome(path.deep_view(), cwd_view(*cwd), root.deep_view())
                == Ok::<Option<Seq<Seq<char>>>, PackageErrorView>(Some(rel.deep_view())),
            Ok(None) => relative_outcome(path.deep_view(), cwd_view(*cwd), root.deep_view()) == Ok::<
                Option<Seq<Seq<char>>>,
                PackageErrorView,
            >(None),
            Err(e) => relative_outcome(path.deep_view(), cwd_view(*cwd), root.deep_view()) == Err::<
                Option<Seq<Seq<char>>>,
                PackageErrorView,
            >(e@),
        },
{
    if path_is_absolute(path) {
        let r = strip_prefix(path, root);
        return Ok(r);
    }
    match cwd {
        Err(e) => Err(PackageError::Io(e.clone())),
        Ok(c) => {
            let full = join_path(c, path);
            Ok(strip_prefix(&full, root))
        },
    }
}

/// Plans the archive of a checked project (`package_project`, before any
/// file is written). The archive is written at `output_path`, shown as
/// `output_text` (the path as it was given). It holds the project's files
/// but the archive itself, when that is written inside the project; with no
/// file left there is nothing to package.
pub fn plan_package(
    inspection: ProjectInspection,
    output_path: &Vec<String>,
    output_text: &String,
    cwd: &Result<Vec<String>, String>,
) -> (r: Result<ProjectPackage, PackageError>)
    requires
        sorted_paths(inspection.included_files.deep_view()),
    ensures
        ({
            let outcome = relative_outcome(
                output_path.deep_view(),
                cwd_view(*cwd),
                inspection.project_dir.deep_view(),
            );
            let iv = inspection.included_files.deep_view();
            match r {
                Err(e) => {
                    ||| outcome == Err::<Option<Seq<Seq<char>>>, PackageErrorView>(e@)
                    ||| (outcome is Ok && e@ == PackageErrorView::EmptyPackage && forall|
                        p: Seq<Seq<char>>,
                    | !#[trigger] package_keeps(iv, outcome, p))
                },
                Ok(pkg) => {
                    &&& outcome is Ok
                    &&& pkg.project_name == inspection.project_name
                    &&& pkg.archive_path@ == output_text@
                    &&& pkg.dockerfile_rel == inspection.dockerfile_rel
                    &&& pkg.compose_file_rel == inspection.compose_file_rel
                    &&& sorted_paths(pkg.included_files.deep_view())
                    &&& pkg.included_files.len() > 0
                    &&& forall|p: Seq<Seq<char>>|
                        pkg.included_files.deep_view().contains(p) <==> #[trigger] package_keeps(
                            iv,
                            outcome,
                            p,
                        )
                },
            }
        }),
{
    let output_rel = path_relative_to(output_path, cwd, &inspection.project_dir)?;
    let ghost iv = inspection.included_files.deep_view();
    let mut files: Vec<Vec<String>> = Vec::new();
    let n = inspection.included_files.len();
    for i in 0..n
        invariant
            n == inspection.included_files.len(),
            iv == inspection.included_files.deep_view(),
            sorted_paths(iv),
            files.len() <= i,
            sorted_paths(files.deep_view()),
            i < n ==> forall|k: int|
                0 <= k < files.len() ==> path_lt(#[trigger] files.deep_view()[k], iv[i as int]),
            forall|p: Seq<Seq<char>>|
                files.deep_view().contains(p) <==> (exists|m: int|
                    0 <= m < i && #[trigger] iv[m] == p && output_rel_differs(output_rel, p)),
    {
        let keep = match &output_rel {
            Some(o) => compare_paths(&inspection.included_files[i], o) != 0,
            None => true,
        };
        assert(iv[i as int] == inspection.included_files@[i as int].deep_view());
        let ghost before = files.deep_view();
        if keep {
            files.push(inspection.included_files[i].clone());
            assert(files.deep_view() =~= before.push(iv[i as int]));
            assert forall|a: int, b: int| 0 <= a < b < files.deep_view().len() implies path_lt(
                #[trigger] files.deep_view()[a],
                #[trigger] files.deep_view()[b],
            ) by {
                if b == before.len() {
                    assert(files.deep_view()[a] == before[a]);
                } else {
                    assert(files.deep_view()[a] == before[a]);
                    assert(files.deep_view()[b] == before[b]);
                }
            }
        }
        assert forall|p: Seq<Seq<char>>|
            files.deep_view().contains(p) <==> (exists|m: int|
                0 <= m < i + 1 && #[trigger] iv[m] == p && output_rel_differs(output_rel, p)) by {
            if files.deep_view().contains(p) && !before.contains(p) {
                assert(iv[i as int] == p);
            }
            if before.contains(p) {
                let k = choose|k: int| 0 <= k < before.len() && before[k] == p;
                assert(files.deep_view()[k] == p);
            }
            if exists|m: int| 0 <= m < i + 1 && #[trigger] iv[m] == p && output_rel_differs(output_rel, p) {
                let m = choose|m: int| 0 <= m < i + 1 && #[trigger] iv[m] == p && output_rel_differs(output_rel, p);
                if m == i {
                    assert(files.deep_view()[files.len() - 1] == p);
                }
            }
        }
        if i + 1 < n {
            assert(path_lt(iv[i as int], iv[i + 1]));
            assert forall|k: int| 0 <= k < files.len() implies path_lt(
                #[trigger] files.deep_view()[k],
                iv[i + 1],
            ) by {
                if k < before.len() {
                    assert(files.deep_view()[k] == before[k]);
                    lemma_path_lt_transitive(before[k], iv[i as int], iv[i + 1]);
                } else {
                    assert(files.deep_view()[k] == iv[i as int]);
                }
            }
        }
    }
    assert forall|p: Seq<Seq<char>>|
        files.deep_view().contains(p) <==> (iv.contains(p) && output_rel_differs(output_rel, p)) by {
        if iv.contains(p) && output_rel_differs(output_rel, p) {
            let m = choose|m: int| 0 <= m < iv.len() && iv[m] == p;
            assert(iv[m] == p);
        }
    }
    if files.len() == 0 {
        assert forall|p: Seq<Seq<char>>| !(iv.contains(p) && output_rel_differs(output_rel, p)) by {
            if iv.contains(p) && output_rel_differs(output_rel, p) {
                assert(files.deep_view().contains(p));
            }
        }
        return Err(PackageError::EmptyPackage);
    }
    Ok(
        ProjectPackage {
            project_name: inspection.project_name,
            archive_path: output_text.clone(),
            dockerfile_rel: inspection.dockerfile_rel,
            compose_file_rel: inspection.compose_file_rel,
            included_files: files,
        },
    )
}

/// Whether a project file stays in the archive: it is not the archive.
pub open spec fn package_keeps(
    included: Seq<Seq<Seq<char>>>,
    outcome: Result<Option<Seq<Seq<char>>>, PackageErrorView>,
    p: Seq<Seq<char>>,
) -> bool {
    included.contains(p) && outcome != Ok::<Option<Seq<Seq<char>>>, PackageErrorView>(Some(p))
}

/// Whether a path differs from the archive's own path inside the project.
pub open spec fn output_rel_differs(output_rel: Option<Vec<String>>, p: Seq<Seq<char>>) -> bool {
    match output_rel {
        Some(o) => o.deep_view() != p,
        None => true,
    }
}

/// Nothing under the project's top-level `.git` directory goes into the
/// archive, and only paths strictly inside the project do.
pub proof fn lemma_git_dir_never_archived(dir: Seq<Seq<char>>, entries: Seq<WalkEntry>, p: Seq<Seq<char>>)
    requires
        selected(dir, entries, p),
    ensures
        p.len() > 0,
        p[0] != git_dir_component(),
        exists|k: int|
            0 <= k < entries.len() && entries[k].is_file && stripped(
                #[trigger] entries[k].path.deep_view(),
                dir,
            ) == Some(p),
{
    let k = choose|k: int|
        0 <= k < entries.len() && #[trigger] selected_at(dir, entries, k) == Some(p);
    assert(entries[k].is_file && stripped(entries[k].path.deep_view(), dir) == Some(p));
}

/// Every regular file that the walk finds inside the project goes into the
/// archive unless it lies under `.git`: dot files are kept.
pub proof fn lemma_walked_files_kept(dir: Seq<Seq<char>>, entries: Seq<WalkEntry>, k: int, rel: Seq<Seq<char>>)
    requires
        0 <= k < entries.len(),
        entries[k].is_file,
        stripped(entries[k].path.deep_view(), dir) == Some(rel),
        rel.len() > 0,
        rel[0] != git_dir_component(),
    ensures
        selected(dir, entries, rel),
{
    assert(selected_at(dir, entries, k) == Some(rel));
    assert(selected_among(dir, entries, entries.len() as int, rel));
}

/// Two lists of paths in strictly increasing order that hold the same paths
/// are the same list: the archive's file list depends only on which files
/// the walk finds, not on the order it finds them in.
pub proof fn lemma_sorted_paths_determined(a: Seq<Seq<Seq<char>>>, b: Seq<Seq<Seq<char>>>)
    requires
        sorted_paths(a),
        sorted_paths(b),
        forall|p: Seq<Seq<char>>| a.contains(p) <==> b.contains(p),
    ensures
        a == b,
    decreases a.len() + b.len(),
{
    if a.len() == 0 {
        if b.len() > 0 {
            assert(b.contains(b[0]));
        }
        assert(a =~= b);
    } else if b.len() == 0 {
        assert(a.contains(a[0]));
    } else {
        assert(a.contains(a[0]));
        assert(b.contains(b[0]));
        let i = choose|i: int| 0 <= i < b.len() && b[i] == a[0];
        let j = choose|j: int| 0 <= j < a.len() && a[j] == b[0];
        if i > 0 {
            assert(path_lt(b[0], b[i]));
            if j > 0 {
                assert(path_lt(a[0], a[j]));
                lemma_path_lt_asymmetric(a[0], b[0]);
            } else {
                lemma_path_lt_irreflexive(a[0]);
            }
        }
        assert(a[0] == b[0]);
        let a1 = a.drop_first();
        let b1 = b.drop_first();
        assert forall|p: Seq<Seq<char>>| a1.contains(p) <==> b1.contains(p) by {
            if a1.contains(p) {
                let x = choose|x: int| 0 <= x < a1.len() && a1[x] == p;
                assert(path_lt(a[0], a[x + 1]));
                lemma_path_lt_irreflexive(p);
                assert(a.contains(p));
                assert(b.contains(p));
                let y = choose|y: int| 0 <= y < b.len() && b[y] == p;
                assert(y != 0);
                assert(b1[y - 1] == p);
            }
            if b1.contains(p) {
                let x = choose|x: int| 0 <= x < b1.len() && b1[x] == p;
                assert(path_lt(b[0], b[x + 1]));
                lemma_path_lt_irreflexive(p);
                assert(b.contains(p));
                assert(a.contains(p));
                let y = choose|y: int| 0 <= y < a.len() && a[y] == p;
                assert(y != 0);
                assert(a1[y - 1] == p);
            }
        }
        lemma_sorted_paths_determined(a1, b1);
        assert(a =~= seq![a[0]] + a1);
        assert(b =~= seq![b[0]] + b1);
    }
}

/// The first reason why a project does not pass inspection: the project
/// directory must exist and be a directory; then the checks of
/// `inspection_error` on its contents.
pub open spec fn project_error(request: PackageRequest, dir: ProjectDirProbe, scan: Option<ProjectScan>) -> Option<
    PackageErrorView,
> {
    match dir.canonical {
        None => Some(PackageErrorView::InvalidProjectDir(request.project_dir@)),
        Some(c) => if !dir.is_dir {
            Some(PackageErrorView::InvalidProjectDir(path_text(c.deep_view())))
        } else {
            match scan {
                Some(sc) => inspection_error(c.deep_view(), request, sc),
                None => None,
            }
        },
    }
}

/// Checks a project for deployment (`inspect_project`): its directory must
/// exist and be a directory; then its Dockerfile and compose file must exist
/// inside it and not be left out of the archive, and the archive must hold at
/// least one file. `scan` is what the file system says of the directory's
/// contents; it is needed only once the directory is found.
pub fn inspect_project(request: &PackageRequest, dir: &ProjectDirProbe, scan: &Option<ProjectScan>) -> (r:
    Result<ProjectInspection, PackageError>)
    requires
        dir.canonical is Some && dir.is_dir ==> (scan matches Some(sc) && sc.compose.len()
            == compose_requested(*request).len()),
    ensures
        r is Ok <==> project_error(*request, *dir, *scan) is None,
        r matches Err(e) ==> project_error(*request, *dir, *scan) == Some(e@),
        r matches Ok(insp) ==> ({
            let c = dir.canonical->0.deep_view();
            let sc = scan->0;
            &&& insp.project_dir.deep_view() == c
            &&& insp.project_name@ == project_name_text(dir.name)
            &&& required_file_outcome(c, dockerfile_requested(*request), sc.dockerfile) == Ok::<
                Seq<Seq<char>>,
                PackageErrorView,
            >(insp.dockerfile_rel.deep_view())
            &&& compose_outcome(c, *request, sc.compose@) == Ok::<Seq<Seq<char>>, PackageErrorView>(
                insp.compose_file_rel.deep_view(),
            )
            &&& sc.walk matches Ok(entries) && forall|p: Seq<Seq<char>>|
                insp.included_files.deep_view().contains(p) <==> selected(c, entries@, p)
            &&& sorted_paths(insp.included_files.deep_view())
            &&& insp.included_files.deep_view().contains(insp.dockerfile_rel.deep_view())
            &&& insp.included_files.deep_view().contains(insp.compose_file_rel.deep_view())
        }),
{
    let project_dir = check_project_dir(request, &dir.canonical, dir.is_dir)?;
    match scan {
        Some(sc) => inspect_project_dir(request, &project_dir, &dir.name, sc),
        None => vstd::pervasive::unreached(),
    }
}

} // verus!
