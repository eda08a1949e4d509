use vstd::prelude::*;
use vstd::string::StringExecFns;

use crate::datetime::{DateTime, datetime_valid, format_datetime_machine, spec_datetime_machine};
use crate::error::{Error, FsError};

verus! {

/// The scaffold of a fresh post: only the machine-readable creation
/// timestamp is filled in.
#[derive(PartialEq, Eq, Debug)]
pub struct PostTemplate {
    pub date_machine: String,
}

/// The scaffold text: a metadata block carrying the timestamp and the
/// draft marker, and nothing after it.
pub open spec fn spec_render_post(date_machine: Seq<char>) -> Seq<char> {
    "---\ndate: \""@ + date_machine + "\"\ndraft: true\n---\n"@
}

impl PostTemplate {
    pub fn render(&self) -> (r: String)
        ensures
            r@ == spec_render_post(self.date_machine@),
    {
        let mut s = String::from_str("---\ndate: \"");
        s.append(self.date_machine.as_str());
        s.append("\"\ndraft: true\n---\n");
        proof {
            assert(s@ =~= spec_render_post(self.date_machine@));
        }
        s
    }
}

/// The scaffold for a post created at `date`.
pub fn render_post_template(date: &DateTime) -> (r: String)
    requires
        datetime_valid(*date),
    ensures
        r@ == spec_render_post(spec_datetime_machine(*date)),
{
    let machine = format_datetime_machine(date);
    let template = PostTemplate { date_machine: machine };
    template.render()
}

/// The directory all content of one language lives under.
pub fn find_content_dir(root: &str, lang: &str) -> (r: String)
    ensures
        r@ == root@ + "/content/"@ + lang@,
{
    let mut s = String::from_str(root);
    s.append("/content/");
    s.append(lang);
    s
}

/// Where a post addressed as `target` is stored.
pub fn post_target_path(root: &str, lang: &str, target: &str) -> (r: String)
    ensures
        r@ == root@ + "/content/"@ + lang@ + "/"@ + target@,
{
    let mut s = find_content_dir(root, lang);
    s.append("/");
    s.append(target);
    proof {
        assert(s@ =~= root@ + "/content/"@ + lang@ + "/"@ + target@);
    }
    s
}

/// Whether a post may be written, judged from what the filesystem
/// reports: the content directory must exist, and an existing target is
/// refused unless force is set — with force it is overwritten
/// unconditionally.
pub fn create_post_plan(content_dir_exists: bool, target_exists: bool, force: bool) -> (r: Result<
    (),
    Error,
>)
    ensures
        !content_dir_exists ==> r == Result::<(), Error>::Err(
            Error::Filesystem(FsError::MissingContentDir),
        ),
        content_dir_exists && target_exists && !force ==> r == Result::<(), Error>::Err(
            Error::Filesystem(FsError::TargetExists),
        ),
        content_dir_exists && (!target_exists || force) ==> r == Result::<(), Error>::Ok(()),
{
    if !content_dir_exists {
        Err(Error::Filesystem(FsError::MissingContentDir))
    } else if target_exists && !force {
        Err(Error::Filesystem(FsError::TargetExists))
    } else {
        Ok(())
    }
}

} // verus!
