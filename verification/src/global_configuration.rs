//! The settings of one run.
use vstd::prelude::*;

verus! {

/// The settings of one run: whether the device is part of the
/// classification, and the directories to read from and to write to, each a
/// path with `/` between its components. They are set once, before the
/// first file is processed.
#[derive(Debug)]
pub struct GlobalConfiguration {
    use_device: bool,
    source_directory: String,
    dest_directory: String,
    sorted_images_directory: String,
    unsorted_images_directory: String,
    not_images_directory: String,
}

/// The settings as plain values.
pub struct Settings {
    pub use_device: bool,
    pub source_directory: Seq<char>,
    pub dest_directory: Seq<char>,
    pub sorted_images_directory: Seq<char>,
    pub unsorted_images_directory: Seq<char>,
    pub not_images_directory: Seq<char>,
}

impl View for GlobalConfiguration {
    type V = Settings;

    closed spec fn view(&self) -> Settings {
        Settings {
            use_device: self.use_device,
            source_directory: self.source_directory@,
            dest_directory: self.dest_directory@,
            sorted_images_directory: self.sorted_images_directory@,
            unsorted_images_directory: self.unsorted_images_directory@,
            not_images_directory: self.not_images_directory@,
        }
    }
}

impl GlobalConfiguration {
    /// The settings to start from: the device counts, every path is empty.
    pub fn new() -> (c: GlobalConfiguration)
        ensures
            c@ == (Settings {
                use_device: true,
                source_directory: Seq::empty(),
                dest_directory: Seq::empty(),
                sorted_images_directory: Seq::empty(),
                unsorted_images_directory: Seq::empty(),
                not_images_directory: Seq::empty(),
            }),
    {
        GlobalConfiguration {
            use_device: true,
            source_directory: String::new(),
            dest_directory: String::new(),
            sorted_images_directory: String::new(),
            unsorted_images_directory: String::new(),
            not_images_directory: String::new(),
        }
    }

    /// Whether the device is part of the classification.
    pub fn use_device(&self) -> (r: &bool)
        ensures
            *r == self@.use_device,
    {
        &self.use_device
    }

    /// Access to the setting of the device, to change it.
    pub fn use_device_mut(&mut self) -> (r: &mut bool)
        ensures
            *r == old(self)@.use_device,
            final(self)@ == (Settings { use_device: *final(r), ..old(self)@ }),
    {
        &mut self.use_device
    }

    /// The path of the directory whose images are sorted.
    pub fn source_directory(&self) -> (r: &String)
        ensures
            r@ == self@.source_directory,
    {
        &self.source_directory
    }

    /// The path of the directory whose images are sorted, as a text.
    pub fn source_directory_as_path(&self) -> (r: &str)
        ensures
            r@ == self@.source_directory,
    {
        self.source_directory.as_str()
    }

    /// Access to the path of the directory whose images are sorted, to change it.
    pub fn source_directory_mut(&mut self) -> (r: &mut String)
        ensures
            r@ == old(self)@.source_directory,
            final(self)@ == (Settings { source_directory: final(r)@, ..old(self)@ }),
    {
        &mut self.source_directory
    }

    /// The path of the directory that the sorted tree is made in.
    pub fn _dest_directory(&self) -> (r: &String)
        ensures
            r@ == self@.dest_directory,
    {
        &self.dest_directory
    }

    /// The path of the directory that the sorted tree is made in, as a text.
    pub fn dest_directory_as_path(&self) -> (r: &str)
        ensures
            r@ == self@.dest_directory,
    {
        self.dest_directory.as_str()
    }

    /// Access to the path of the directory that the sorted tree is made in, to change it.
    pub fn dest_directory_mut(&mut self) -> (r: &mut String)
        ensures
            r@ == old(self)@.dest_directory,
            final(self)@ == (Settings { dest_directory: final(r)@, ..old(self)@ }),
    {
        &mut self.dest_directory
    }

    /// The path of the root of the sorted tree.
    pub fn _sorted_images_directory(&self) -> (r: &String)
        ensures
            r@ == self@.sorted_images_directory,
    {
        &self.sorted_images_directory
    }

    /// The path of the root of the sorted tree, as a text.
    pub fn sorted_images_directory_as_path(&self) -> (r: &str)
        ensures
            r@ == self@.sorted_images_directory,
    {
        self.sorted_images_directory.as_str()
    }

    /// Access to the path of the root of the sorted tree, to change it.
    pub fn sorted_images_directory_mut(&mut self) -> (r: &mut String)
        ensures
            r@ == old(self)@.sorted_images_directory,
            final(self)@ == (Settings { sorted_images_directory: final(r)@, ..old(self)@ }),
    {
        &mut self.sorted_images_directory
    }

    /// The path of the directory for images that cannot be classified.
    pub fn _unsorted_images_directory(&self) -> (r: &String)
        ensures
            r@ == self@.unsorted_images_directory,
    {
        &self.unsorted_images_directory
    }

    /// The path of the directory for images that cannot be classified, as a text.
    pub fn unsorted_images_directory_as_path(&self) -> (r: &str)
        ensures
            r@ == self@.unsorted_images_directory,
    {
        self.unsorted_images_directory.as_str()
    }

    /// Access to the path of the directory for images that cannot be classified, to change it.
    pub fn unsorted_images_directory_mut(&mut self) -> (r: &mut String)
        ensures
            r@ == old(self)@.unsorted_images_directory,
            final(self)@ == (Settings { unsorted_images_directory: final(r)@, ..old(self)@ }),
    {
        &mut self.unsorted_images_directory
    }

    /// The path of the directory for files that are no images.
    pub fn _not_images_directory(&self) -> (r: &String)
        ensures
            r@ == self@.not_images_directory,
    {
        &self.not_images_directory
    }

    /// The path of the directory for files that are no images, as a text.
    pub fn not_images_directory_as_path(&self) -> (r: &str)
        ensures
            r@ == self@.not_images_directory,
    {
        self.not_images_directory.as_str()
    }

    /// Access to the path of the directory for files that are no images, to change it.
    pub fn not_images_directory_mut(&mut self) -> (r: &mut String)
        ensures
            r@ == old(self)@.not_images_directory,
            final(self)@ == (Settings { not_images_directory: final(r)@, ..old(self)@ }),
    {
        &mut self.not_images_directory
    }
}

} // verus!
