//! The application record: one launchable application discovered on disk.

use vstd::prelude::*;

verus! {

/// The mathematical content of an [`App`]: its three fields as byte
/// sequences.
#[verifier::ext_equal]
pub ghost struct AppView {
    pub name: Seq<u8>,
    pub desc: Seq<u8>,
    pub cmd: Seq<u8>,
}

/// One discovered launchable application. `name` is the dedup/sort key,
/// `desc` a human-readable description, and `cmd` the launch command
/// template. Fields hold the bytes of UTF-8 text.
pub struct App {
    name: Vec<u8>,
    desc: Vec<u8>,
    cmd: Vec<u8>,
}

impl View for App {
    type V = AppView;

    closed spec fn view(&self) -> AppView {
        AppView { name: self.name@, desc: self.desc@, cmd: self.cmd@ }
    }
}

impl DeepView for App {
    type V = AppView;

    open spec fn deep_view(&self) -> AppView {
        self@
    }
}

impl App {
    pub fn new(name: Vec<u8>, desc: Vec<u8>, cmd: Vec<u8>) -> (r: App)
        ensures
            r@ == (AppView { name: name@, desc: desc@, cmd: cmd@ }),
    {
        App { name, desc, cmd }
    }

    pub fn name(&self) -> (r: &Vec<u8>)
        ensures
            r@ == self@.name,
    {
        &self.name
    }

    pub fn desc(&self) -> (r: &Vec<u8>)
        ensures
            r@ == self@.desc,
    {
        &self.desc
    }

    pub fn cmd(&self) -> (r: &Vec<u8>)
        ensures
            r@ == self@.cmd,
    {
        &self.cmd
    }
}

} // verus!
