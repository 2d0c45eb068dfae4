use vstd::prelude::*;
use vstd::string::StringExecFns;

use crate::path::PathNode;
use crate::relay::{spec_relay_name, Relay};

verus! {

/// Builds the names and lines under which search results are logged.
pub struct ResultLogger;

impl ResultLogger {
    /// Informational log line; logging of such lines is switched off, so nothing is written.
    pub fn log(info: &str) {
    }

    /// Error log line; logging of such lines is switched off, so nothing is written.
    pub fn error(info: &str) {
    }

    /// Folder of the logs of a default search: `default_log_data/<relay>/<date>/<input amount>`.
    pub fn default_log_folder(relay: Relay, date: &str, input_amount: &str) -> (r: String)
        ensures
            r@ == "default_log_data/"@ + spec_relay_name(relay) + "/"@ + date@ + "/"@
                + input_amount@,
    {
        let mut folder = String::from_str("default_log_data/");
        folder.append(relay.name());
        folder.append("/");
        folder.append(date);
        folder.append("/");
        folder.append(input_amount);
        folder
    }

    /// Folder of the logs of a target search: `target_log_data/<relay>/<date>`.
    pub fn target_log_folder(relay: Relay, date: &str) -> (r: String)
        ensures
            r@ == "target_log_data/"@ + spec_relay_name(relay) + "/"@ + date@,
    {
        let mut folder = String::from_str("target_log_data/");
        folder.append(relay.name());
        folder.append("/");
        folder.append(date);
        folder
    }

    /// Folder of the logs of a fallback search for an asset:
    /// `fallback_log_data/<relay>/<date>/<asset name>`.
    pub fn fallback_log_folder(relay: Relay, date: &str, asset_name: &str) -> (r: String)
        ensures
            r@ == "fallback_log_data/"@ + spec_relay_name(relay) + "/"@ + date@ + "/"@
                + asset_name@,
    {
        let mut folder = String::from_str("fallback_log_data/");
        folder.append(relay.name());
        folder.append("/");
        folder.append(date);
        folder.append("/");
        folder.append(asset_name);
        folder
    }

    /// File that holds one logged fallback path, inside the asset's folder: `<folder>/<time>.json`.
    pub fn fallback_log_file_path(folder: &str, time: &str) -> (r: String)
        ensures
            r@ == folder@ + "/"@ + time@ + ".json"@,
    {
        let mut file = String::from_str(folder);
        file.append("/");
        file.append(time);
        file.append(".json");
        file
    }

    /// File that holds one logged path of a default or target search:
    /// `<folder>/<asset name>_<time>.json`.
    pub fn log_file_path(folder: &str, asset_name: &str, time: &str) -> (r: String)
        ensures
            r@ == folder@ + "/"@ + asset_name@ + "_"@ + time@ + ".json"@,
    {
        let mut file = String::from_str(folder);
        file.append("/");
        file.append(asset_name);
        file.append("_");
        file.append(time);
        file.append(".json");
        file
    }

    /// The line appended to the summary log for a logged path:
    /// `<timestamp> <asset name> - <value at the end of the path>`.
    pub fn result_log_line(timestamp: &str, asset_name: &str, path: &Vec<PathNode>) -> (r: String)
        requires
            path@.len() > 0,
        ensures
            r@ == timestamp@ + " "@ + asset_name@ + " - "@ + path@.last().path_value@,
    {
        let best_path_value = &path[path.len() - 1].path_value;
        let mut line = String::from_str(timestamp);
        line.append(" ");
        line.append(asset_name);
        line.append(" - ");
        line.append(best_path_value.as_str());
        line
    }
}

} // verus!
