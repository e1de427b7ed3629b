use vstd::prelude::*;

verus! {

/// Whether `c` must not occur in the name of a stored picture.
pub open spec fn is_unsafe_char(c: char) -> bool {
    c == '|' || c == '\\' || c == ':' || c == '/'
}

/// `s` without the characters that a file name must not hold; the others
/// stay, in their order.
pub open spec fn stripped(s: Seq<char>) -> Seq<char> {
    s.filter(|c: char| !is_unsafe_char(c))
}

/// The file name under which a capture of `display` taken at `timestamp`
/// is stored.
pub open spec fn file_name(display: Seq<char>, timestamp: Seq<char>) -> Seq<char> {
    "monitor-"@ + stripped(display + timestamp) + ".png"@
}

/// `dir` with a `/` behind it, unless it ends in one already.
pub open spec fn with_trailing_slash(dir: Seq<char>) -> Seq<char> {
    if dir.len() > 0 && dir.last() == '/' {
        dir
    } else {
        dir.push('/')
    }
}

/// Appends one character. Stands for `String::push`, of which it claims
/// that the text grows by exactly that character at its end.
#[verifier::external_body]
fn push_char(text: &mut String, c: char)
    ensures
        final(text)@ == old(text)@.push(c),
{
    text.push(c);
}

/// Executable form of [`is_unsafe_char`].
pub fn is_unsafe(c: char) -> (unsafe_char: bool)
    ensures
        unsafe_char == is_unsafe_char(c),
{
    c == '|' || c == '\\' || c == ':' || c == '/'
}

/// One more character at the end of `s` adds that character to the
/// stripped text, or nothing.
proof fn lemma_stripped_push(s: Seq<char>, c: char)
    ensures
        stripped(s.push(c)) == if is_unsafe_char(c) {
            stripped(s)
        } else {
            stripped(s).push(c)
        },
{
    reveal(Seq::filter);
    assert(s.push(c).drop_last() =~= s);
}

/// Removes `|`, `\`, `:` and `/` from `filename`.
pub fn normalized(filename: &str) -> (clean: String)
    ensures
        clean@ == stripped(filename@),
{
    let mut clean = String::new();
    proof {
        reveal(Seq::filter);
        assert(filename@.take(0) =~= Seq::<char>::empty());
    }
    for c in it: filename.chars()
        invariant
            it.seq() == filename@,
            clean@ == stripped(filename@.take(it.index() as int)),
    {
        proof {
            let i = it.index() as int;
            lemma_stripped_push(filename@.take(i), c);
            assert(filename@.take(i).push(c) =~= filename@.take(i + 1));
        }
        if !is_unsafe(c) {
            push_char(&mut clean, c);
        }
    }
    proof {
        assert(filename@.take(filename@.len() as int) =~= filename@);
    }
    clean
}

/// The stripped text holds none of the four characters.
pub proof fn lemma_stripped_is_safe(s: Seq<char>)
    ensures
        forall|i: int| 0 <= i < stripped(s).len() ==> !is_unsafe_char(#[trigger] stripped(s)[i]),
    decreases s.len(),
{
    reveal(Seq::filter);
    if s.len() > 0 {
        lemma_stripped_is_safe(s.drop_last());
        assert(s.drop_last().push(s.last()) =~= s);
        lemma_stripped_push(s.drop_last(), s.last());
    }
}

/// Stripping a second time changes nothing.
pub proof fn lemma_stripped_idempotent(s: Seq<char>)
    ensures
        stripped(stripped(s)) == stripped(s),
    decreases s.len(),
{
    reveal(Seq::filter);
    if s.len() > 0 {
        lemma_stripped_idempotent(s.drop_last());
        assert(s.drop_last().push(s.last()) =~= s);
        lemma_stripped_push(s.drop_last(), s.last());
        if !is_unsafe_char(s.last()) {
            lemma_stripped_push(stripped(s.drop_last()), s.last());
        }
    }
}

/// A text without any of the four characters is left as it is.
pub proof fn lemma_stripped_keeps_safe_text(s: Seq<char>)
    requires
        forall|i: int| 0 <= i < s.len() ==> !is_unsafe_char(#[trigger] s[i]),
    ensures
        stripped(s) == s,
    decreases s.len(),
{
    reveal(Seq::filter);
    if s.len() > 0 {
        lemma_stripped_keeps_safe_text(s.drop_last());
        assert(s.drop_last().push(s.last()) =~= s);
    }
}

/// Whatever the display is called and whatever the timestamp looks like,
/// the file name of a capture holds none of `|`, `\`, `:` and `/`.
pub proof fn lemma_file_name_is_safe(display: Seq<char>, timestamp: Seq<char>)
    ensures
        forall|i: int|
            0 <= i < file_name(display, timestamp).len() ==> !is_unsafe_char(
                #[trigger] file_name(display, timestamp)[i],
            ),
{
    reveal_strlit("monitor-");
    reveal_strlit(".png");
    lemma_stripped_is_safe(display + timestamp);
    let middle = stripped(display + timestamp);
    let name = file_name(display, timestamp);
    assert forall|i: int| 0 <= i < name.len() implies !is_unsafe_char(#[trigger] name[i]) by {
        if i < 8 {
            assert(name[i] == "monitor-"@[i]);
        } else if i < 8 + middle.len() {
            assert(name[i] == middle[i - 8]);
        } else {
            assert(name[i] == ".png"@[i - 8 - middle.len()]);
        }
    }
}

/// The path of the file that receives a capture of `display` taken at
/// `timestamp`: the storage directory as given, then the file name.
pub fn capture_path(storage_dir: &str, display: &str, timestamp: &str) -> (path: String)
    ensures
        path@ == storage_dir@ + file_name(display@, timestamp@),
{
    let mut tag = String::from_str(display);
    tag.append(timestamp);
    let clean = normalized(tag.as_str());
    let mut path = String::from_str(storage_dir);
    path.append("monitor-");
    path.append(clean.as_str());
    path.append(".png");
    proof {
        assert(path@ =~= storage_dir@ + file_name(display@, timestamp@));
    }
    path
}

/// The time of the call as text. Stands for `SystemTime::now`, the
/// conversion of chrono from a `SystemTime` to a `DateTime<Utc>`, which
/// also takes a clock that stands before 1970, and the `Display` of that
/// date. Nothing is claimed of the text.
#[verifier::external_body]
fn current_timestamp() -> (stamp: String) {
    chrono::DateTime::<chrono::Utc>::from(std::time::SystemTime::now()).to_string()
}

/// The paths for one capture of each display, all taken at `timestamp`.
pub open spec fn paths_at(
    paths: Seq<String>,
    storage_dir: Seq<char>,
    displays: Seq<String>,
    timestamp: Seq<char>,
) -> bool {
    &&& paths.len() == displays.len()
    &&& forall|i: int|
        0 <= i < displays.len() ==> (#[trigger] paths[i])@ == storage_dir + file_name(
            displays[i]@,
            timestamp,
        )
}

/// The paths of the files that receive the captures of a tick: one for
/// each display, in their order, all with the timestamp of this call.
pub fn capture_paths(storage_dir: &str, displays: &Vec<String>) -> (paths: Vec<String>)
    ensures
        exists|timestamp: Seq<char>| paths_at(paths@, storage_dir@, displays@, timestamp),
{
    let stamp = current_timestamp();
    let mut paths: Vec<String> = Vec::new();
    for i in 0..displays.len()
        invariant
            paths@.len() == i,
            forall|j: int|
                0 <= j < i ==> (#[trigger] paths@[j])@ == storage_dir@ + file_name(
                    displays@[j]@,
                    stamp@,
                ),
    {
        let path = capture_path(storage_dir, displays[i].as_str(), stamp.as_str());
        paths.push(path);
    }
    assert(paths_at(paths@, storage_dir@, displays@, stamp@));
    paths
}

/// What has to happen before pictures can be stored.
#[derive(Clone, Debug, PartialEq, Eq)]
pub enum StoragePlan {
    /// The directory is there: pictures go under this prefix, which ends
    /// in `/`.
    Ready(String),
    /// The directory that this prefix names has to be created first;
    /// pictures then go under the prefix, which ends in `/`.
    Create(String),
    /// The path names a regular file: nothing can be stored.
    Conflict(String),
}

/// What [`plan_storage_dir`] answers.
pub open spec fn storage_plan(dir: Option<Seq<char>>, exists: bool, is_file: bool) -> StoragePlanView {
    match dir {
        None => StoragePlanView::Ready("./"@),
        Some(d) => if exists && is_file {
            StoragePlanView::Conflict(d)
        } else if exists {
            StoragePlanView::Ready(with_trailing_slash(d))
        } else {
            StoragePlanView::Create(with_trailing_slash(d))
        },
    }
}

/// A [`StoragePlan`] with its texts as sequences.
pub enum StoragePlanView {
    Ready(Seq<char>),
    Create(Seq<char>),
    Conflict(Seq<char>),
}

impl View for StoragePlan {
    type V = StoragePlanView;

    open spec fn view(&self) -> StoragePlanView {
        match self {
            StoragePlan::Ready(d) => StoragePlanView::Ready(d@),
            StoragePlan::Create(d) => StoragePlanView::Create(d@),
            StoragePlan::Conflict(d) => StoragePlanView::Conflict(d@),
        }
    }
}

/// Decides where pictures go. `exists` and `is_file` say what was found at
/// `dir`; they are not looked at where no directory was asked for, and the
/// working directory is used.
pub fn plan_storage_dir(dir: Option<String>, exists: bool, is_file: bool) -> (plan: StoragePlan)
    ensures
        plan@ == storage_plan(
            match dir {
                Some(d) => Some(d@),
                None => None,
            },
            exists,
            is_file,
        ),
{
    match dir {
        None => StoragePlan::Ready(String::from_str("./")),
        Some(d) => {
            if exists && is_file {
                StoragePlan::Conflict(d)
            } else {
                let n = d.as_str().unicode_len();
                let mut prefix = d;
                if !(n > 0 && prefix.as_str().get_char(n - 1) == '/') {
                    push_char(&mut prefix, '/');
                }
                if exists {
                    StoragePlan::Ready(prefix)
                } else {
                    StoragePlan::Create(prefix)
                }
            }
        },
    }
}

impl StoragePlanView {
    /// The prefix under which pictures go, where the plan has one.
    pub open spec fn prefix(self) -> Option<Seq<char>> {
        match self {
            StoragePlanView::Ready(p) => Some(p),
            StoragePlanView::Create(p) => Some(p),
            StoragePlanView::Conflict(_) => None,
        }
    }
}

/// Every prefix that a plan gives ends in `/`, so that a file name put
/// behind it names a file inside the directory.
pub proof fn lemma_prefix_ends_in_slash(dir: Option<Seq<char>>, exists: bool, is_file: bool)
    ensures
        storage_plan(dir, exists, is_file).prefix() matches Some(p) ==> p.len() > 0 && p.last()
            == '/',
{
    reveal_strlit("./");
}

/// Once the directory of a plan has been created, the plan for the same
/// directory is ready and gives the same prefix.
pub proof fn lemma_prefix_is_stable(dir: Seq<char>, is_file: bool)
    ensures
        storage_plan(Some(dir), false, is_file) == StoragePlanView::Create(with_trailing_slash(dir)),
        storage_plan(Some(dir), true, false) == StoragePlanView::Ready(with_trailing_slash(dir)),
        storage_plan(Some(dir), true, false).prefix() == storage_plan(
            Some(dir),
            false,
            is_file,
        ).prefix(),
{
}

/// A directory that ends in `/`, or has been given one, keeps its text.
pub proof fn lemma_trailing_slash_once(dir: Seq<char>)
    ensures
        with_trailing_slash(with_trailing_slash(dir)) == with_trailing_slash(dir),
        dir.len() > 0 && dir.last() == '/' ==> with_trailing_slash(dir) == dir,
{
}

} // verus!
