//! The places that exported documents and captured files are written to.
use vstd::prelude::*;
use crate::text::{append_decimal, decimal};

verus! {

/// An exporter that writes documents to the console.
pub struct ConsoleExporter {}

/// An exporter that writes each document to a file of its own in a directory.
pub struct FileExporter {
    dir: String,
}

impl View for FileExporter {
    type V = Seq<char>;

    /// The directory the documents go to.
    closed spec fn view(&self) -> Seq<char> {
        self.dir@
    }
}

impl FileExporter {
    /// An exporter into the directory `dir`.
    pub fn new(dir: String) -> (res: FileExporter)
        ensures
            res@ == dir@,
    {
        FileExporter { dir }
    }

    /// The directory the documents go to.
    pub fn dir(&self) -> (res: &str)
        ensures
            res@ == self@,
    {
        self.dir.as_str()
    }

    /// The file that a document exported at `timestamp_nanos` (nanoseconds
    /// since the Unix epoch) is written to: `<dir>/<timestamp>.json`.
    pub fn file_path(&self, timestamp_nanos: u128) -> (res: String)
        ensures
            res@ == self@ + "/"@ + decimal(timestamp_nanos as nat) + ".json"@,
    {
        let mut res = self.dir.clone();
        res.append("/");
        append_decimal(&mut res, timestamp_nanos);
        res.append(".json");
        res
    }
}

/// Writes the files of one captured request under a base directory.
pub struct FileWriter {
    base_path: String,
}

impl View for FileWriter {
    type V = Seq<char>;

    /// The directory the files go to.
    closed spec fn view(&self) -> Seq<char> {
        self.base_path@
    }
}

impl FileWriter {
    /// A writer into the directory `base_path`.
    pub fn new(base_path: String) -> (res: FileWriter)
        ensures
            res@ == base_path@,
    {
        FileWriter { base_path }
    }

    /// The directory the files go to.
    pub fn base_path(&self) -> (res: &str)
        ensures
            res@ == self@,
    {
        self.base_path.as_str()
    }

    /// The path of the file `file_name` under the base directory.
    pub fn file_path(&self, file_name: &str) -> (res: String)
        ensures
            res@ == self@ + "/"@ + file_name@,
    {
        let mut res = self.base_path.clone();
        res.append("/");
        res.append(file_name);
        res
    }
}

} // verus!
