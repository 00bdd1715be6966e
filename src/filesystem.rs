//! The filesystem sink: one file per snapshot, named from its composite identity key.

use vstd::prelude::*;
use vstd::string::*;
use crate::model::MatchupOverview;
use crate::timestamp::{DISPLAY_LAYOUT, formatted_utc};

verus! {

/// The name, relative to the base path, of the file of the snapshot `id` starting at `start_time`.
pub open spec fn file_name(id: Seq<char>, start_time: Seq<char>) -> Seq<char> {
    "data/match_"@ + id + "_"@ + start_time + ".json"@
}

/// `data/match_<id>_<start_time>.json`.
pub fn gen_filename(id: &str, start_time: &str) -> (r: String)
    ensures
        r@ == file_name(id@, start_time@),
{
    let mut filename = "data/match_".to_owned();
    filename.append(id);
    filename.append("_");
    filename.append(start_time);
    filename.append(".json");
    filename
}

/// Writes snapshots as files under a base directory.
#[derive(Clone, Debug)]
pub struct FileSystemPersistence {
    pub basepath: String,
}

impl FileSystemPersistence {
    pub fn new(basepath: String) -> (r: FileSystemPersistence)
        ensures
            r.basepath@ == basepath@,
    {
        FileSystemPersistence { basepath }
    }

    /// `data/match_<id>_<start_time>.json`.
    pub fn gen_filename(id: &str, start_time: &str) -> (r: String)
        ensures
            r@ == file_name(id@, start_time@),
    {
        gen_filename(id, start_time)
    }

    /// The path of the file of `m`: `<basepath>/data/match_<id>_<start>.json`, the start
    /// written as `Display` writes a UTC time.
    pub fn file_path(&self, m: &MatchupOverview) -> (r: String)
        ensures
            r@ == self.basepath@ + "/"@ + file_name(
                m.id@,
                formatted_utc(m.start_time@, DISPLAY_LAYOUT@),
            ),
    {
        let start = m.start_time.to_display_text();
        let name = gen_filename(m.id.as_str(), start.as_str());
        let mut path = self.basepath.clone();
        path.append("/");
        path.append(name.as_str());
        path
    }
}

} // verus!
