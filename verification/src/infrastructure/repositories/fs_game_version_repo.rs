//! Installing a new version of a game: which local files are obsolete,
//! which files are fetched, and the progress reported along the way.
use vstd::prelude::*;

verus! {

/// The name of the file in a game's directory that records the installed
/// version.
pub fn game_metadata_filename() -> (n: &'static str)
    ensures
        n@ == "game_metadata.json"@,
{
    "game_metadata.json"
}

/// `s` with every backslash turned into a slash.
pub open spec fn forward_slashes(s: Seq<char>) -> Seq<char> {
    s.map_values(|c: char| if c == '\\' { '/' } else { c })
}

/// A relative path in the form the server names files: with forward
/// slashes.
pub fn normalize_separators(path: &str) -> (r: String)
    ensures
        r@ == forward_slashes(path@),
{
    let chars = crate::words::chars_of(path);
    let mut out = String::new();
    let mut run_start: usize = 0;
    let mut i: usize = 0;
    while i < chars.len()
        invariant
            chars@ == path@,
            run_start <= i <= chars@.len(),
            out@ + chars@.subrange(run_start as int, i as int) == forward_slashes(
                chars@.subrange(0, i as int),
            ),
            forall|k: int| run_start <= k < i ==> chars@[k] != '\\',
        decreases chars@.len() - i,
    {
        assert(chars@.subrange(0, i + 1) =~= chars@.subrange(0, i as int).push(chars@[i as int]));
        if chars[i] == '\\' {
            let ghost old_out = out@;
            let ghost run = chars@.subrange(run_start as int, i as int);
            out.append(path.substring_char(run_start, i));
            out.append("/");
            proof {
                reveal_strlit("/");
            }
            assert("/"@ =~= seq!['/']);
            assert(out@ =~= (old_out + run).push('/'));
            run_start = i + 1;
            assert(chars@.subrange(run_start as int, i + 1) =~= Seq::<char>::empty());
            assert(forward_slashes(chars@.subrange(0, i + 1)) =~= forward_slashes(
                chars@.subrange(0, i as int),
            ).push('/'));
        } else {
            assert(chars@.subrange(run_start as int, i + 1) =~= chars@.subrange(
                run_start as int,
                i as int,
            ).push(chars@[i as int]));
            assert(forward_slashes(chars@.subrange(0, i + 1)) =~= forward_slashes(
                chars@.subrange(0, i as int),
            ).push(chars@[i as int]));
        }
        i = i + 1;
    }
    out.append(path.substring_char(run_start, i));
    assert(chars@.subrange(0, i as int) =~= path@);
    out
}

/// A file of a game version: its path relative to the game's directory and
/// the URL it is downloaded from.
#[derive(Debug)]
pub struct GameFile {
    pub path: String,
    pub download_url: String,
}

/// A progress report: files done, files in all, and what is being done.
#[derive(Debug)]
pub struct Progress {
    pub done: usize,
    pub total: usize,
    pub label: String,
}

/// What happens to one file of the new version.
#[derive(Debug)]
pub enum FileAction {
    /// The file is missing locally: report `before`, download `url` to
    /// `path`, report `after`.
    Download { path: String, url: String, before: Progress, after: Progress },
    /// The file is there already: report and go on.
    Skip { report: Progress },
}

/// The installation of a game version: local files to remove, then one
/// action per file of the version, in order.
#[derive(Debug)]
pub struct UpdatePlan {
    pub obsolete: Vec<String>,
    pub actions: Vec<FileAction>,
}

/// Some file of the version has this path.
pub open spec fn in_version(files: Seq<GameFile>, p: Seq<char>) -> bool {
    exists|j: int| 0 <= j < files.len() && #[trigger] files[j].path@ == p
}

/// The local files (in order) that the version does not have.
pub open spec fn obsolete_spec(local: Seq<String>, files: Seq<GameFile>) -> Seq<Seq<char>>
    decreases local.len(),
{
    if local.len() == 0 {
        Seq::empty()
    } else {
        let rest = obsolete_spec(local.drop_last(), files);
        if in_version(files, local.last()@) {
            rest
        } else {
            rest.push(local.last()@)
        }
    }
}

/// `p` reports `done` of `total` with label `label`.
pub open spec fn reports(p: Progress, done: int, total: int, label: Seq<char>) -> bool {
    p.done == done && p.total == total && p.label@ == label
}

/// The action for file `i` of `files`, given whether it is present
/// locally: a present file is skipped and reported done; a missing one is
/// downloaded, with a report before and after.
pub open spec fn action_for(a: FileAction, files: Seq<GameFile>, present: bool, i: int) -> bool {
    let n = files.len() as int;
    let f = files[i];
    if present {
        a matches FileAction::Skip { report } && reports(
            report,
            i + 1,
            n,
            "Skipped: "@ + f.path@,
        )
    } else {
        a matches FileAction::Download { path, url, before, after } && path@ == f.path@ && url@
            == f.download_url@ && reports(before, i, n, f.path@) && reports(
            after,
            i + 1,
            n,
            f.path@,
        )
    }
}

/// File `i` is there when its turn comes: it was present before the
/// installation started, or an earlier file of the version has the same
/// path (that one was present or has just been downloaded).
pub open spec fn there_at_turn(files: Seq<GameFile>, present: Seq<bool>, i: int) -> bool {
    present[i] || exists|j: int| 0 <= j < i && #[trigger] files[j].path@ == files[i].path@
}

fn earlier_same_path(files: &Vec<GameFile>, i: usize) -> (b: bool)
    requires
        i < files@.len(),
    ensures
        b == exists|j: int| 0 <= j < i && #[trigger] files@[j].path@ == files@[i as int].path@,
{
    let mut j: usize = 0;
    while j < i
        invariant
            i < files@.len(),
            j <= i,
            forall|k: int| 0 <= k < j ==> #[trigger] files@[k].path@ != files@[i as int].path@,
        decreases i - j,
    {
        if files[j].path == files[i].path {
            assert(files@[j as int].path@ == files@[i as int].path@);
            return true;
        }
        j = j + 1;
    }
    false
}

fn path_in_version(files: &Vec<GameFile>, p: &String) -> (b: bool)
    ensures
        b == in_version(files@, p@),
{
    let mut j: usize = 0;
    while j < files.len()
        invariant
            j <= files@.len(),
            forall|k: int| 0 <= k < j ==> files@[k].path@ != p@,
        decreases files@.len() - j,
    {
        if files[j].path == *p {
            assert(files@[j as int].path@ == p@);
            return true;
        }
        j = j + 1;
    }
    false
}

/// Plan the installation of a version whose files are `files`, where
/// `local` lists the files installed now and `present[i]` tells whether
/// file `i` of the version is there already. A file listed again after
/// an earlier entry with the same path is there by its turn, and is
/// skipped.
pub fn plan_game_update(local: Vec<String>, files: &Vec<GameFile>, present: &Vec<bool>) -> (plan:
    UpdatePlan)
    requires
        present@.len() == files@.len(),
    ensures
        plan.obsolete@.map_values(|s: String| s@) == obsolete_spec(local@, files@),
        plan.actions@.len() == files@.len(),
        forall|i: int|
            0 <= i < files@.len() ==> action_for(
                #[trigger] plan.actions@[i],
                files@,
                there_at_turn(files@, present@, i),
                i,
            ),
{
    let mut obsolete: Vec<String> = Vec::new();
    let mut k: usize = 0;
    while k < local.len()
        invariant
            k <= local@.len(),
            obsolete@.map_values(|s: String| s@) == obsolete_spec(
                local@.subrange(0, k as int),
                files@,
            ),
        decreases local@.len() - k,
    {
        assert(local@.subrange(0, k + 1).drop_last() =~= local@.subrange(0, k as int));
        if !path_in_version(files, &local[k]) {
            let ghost before = obsolete@.map_values(|s: String| s@);
            obsolete.push(local[k].clone());
            assert(obsolete@.map_values(|s: String| s@) =~= before.push(local@[k as int]@));
        }
        k = k + 1;
    }
    assert(local@.subrange(0, local@.len() as int) =~= local@);
    let total = files.len();
    let mut actions: Vec<FileAction> = Vec::new();
    let mut i: usize = 0;
    while i < files.len()
        invariant
            total == files@.len(),
            present@.len() == files@.len(),
            i <= files@.len(),
            actions@.len() == i,
            forall|m: int|
                0 <= m < i ==> action_for(
                    #[trigger] actions@[m],
                    files@,
                    there_at_turn(files@, present@, m),
                    m,
                ),
        decreases files@.len() - i,
    {
        let f = &files[i];
        if present[i] || earlier_same_path(files, i) {
            let mut label = "Skipped: ".to_owned();
            label.append(f.path.as_str());
            proof {
                reveal_strlit("Skipped: ");
            }
            actions.push(FileAction::Skip { report: Progress { done: i + 1, total, label } });
        } else {
            actions.push(
                FileAction::Download {
                    path: f.path.clone(),
                    url: f.download_url.clone(),
                    before: Progress { done: i, total, label: f.path.clone() },
                    after: Progress { done: i + 1, total, label: f.path.clone() },
                },
            );
        }
        i = i + 1;
    }
    UpdatePlan { obsolete, actions }
}

/// A local file is obsolete exactly when it is installed now and no file
/// of the new version has its path.
pub proof fn law_obsolete_exactly_unlisted(local: Seq<String>, files: Seq<GameFile>, p: Seq<char>)
    ensures
        obsolete_spec(local, files).contains(p) <==> ((exists|k: int|
            0 <= k < local.len() && #[trigger] local[k]@ == p) && !(exists|j: int|
            0 <= j < files.len() && #[trigger] files[j].path@ == p)),
    decreases local.len(),
{
    if local.len() > 0 {
        let rest = local.drop_last();
        law_obsolete_exactly_unlisted(rest, files, p);
        let prev = obsolete_spec(rest, files);
        if (exists|k: int| 0 <= k < local.len() && #[trigger] local[k]@ == p) {
            let k = choose|k: int| 0 <= k < local.len() && #[trigger] local[k]@ == p;
            if k < local.len() - 1 {
                assert(rest[k]@ == p);
            }
        }
        if (exists|k: int| 0 <= k < rest.len() && #[trigger] rest[k]@ == p) {
            let k = choose|k: int| 0 <= k < rest.len() && #[trigger] rest[k]@ == p;
            assert(local[k]@ == p);
        }
        if !in_version(files, local.last()@) {
            assert(prev.push(local.last()@).contains(p) <==> (prev.contains(p) || local.last()@
                == p)) by {
                if prev.push(local.last()@).contains(p) {
                    let i = choose|i: int|
                        0 <= i < prev.push(local.last()@).len() && prev.push(local.last()@)[i]
                            == p;
                    if i < prev.len() {
                        assert(prev[i] == p);
                    }
                }
                if prev.contains(p) {
                    let i = choose|i: int| 0 <= i < prev.len() && prev[i] == p;
                    assert(prev.push(local.last()@)[i] == p);
                }
                if local.last()@ == p {
                    assert(prev.push(local.last()@)[prev.len() as int] == p);
                }
            }
        }
    }
}

} // verus!
