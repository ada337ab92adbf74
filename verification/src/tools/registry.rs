//! The tools available to agents, each kept under its name.

use vstd::prelude::*;
use crate::error::Error;
use crate::registry::Registry;
use crate::tools::types::{duplicate_tool_error, missing_tool_error};

verus! {

/// Tools kept by name.
pub struct ToolRegistry<T> {
    tools: Registry<T>,
}

impl<T> ToolRegistry<T> {
    /// The tool kept under each name.
    pub closed spec fn view(&self) -> Map<Seq<char>, T> {
        self.tools.view()
    }

    /// The names, in the order they were registered.
    pub closed spec fn order(&self) -> Seq<Seq<char>> {
        self.tools.order()
    }

    /// An empty registry.
    pub fn new() -> (r: Self)
        ensures
            r.view() == Map::<Seq<char>, T>::empty(),
    {
        ToolRegistry { tools: Registry::new() }
    }

    /// Registers `tool` under `name`; a name that is taken is refused and
    /// nothing changes.
    pub fn register(&mut self, name: &str, tool: T) -> (r: Result<(), Error>)
        ensures
            old(self).view().contains_key(name@) ==> final(self).view() == old(self).view()
                && (r matches Err(Error::Internal(m)) && m@ == "Tool '"@ + name@ + "' is already registered"@),
            !old(self).view().contains_key(name@) ==> r is Ok
                && final(self).view() == old(self).view().insert(name@, tool),
    {
        match self.tools.insert_new(name, tool) {
            Ok(()) => Ok(()),
            Err(_) => Err(duplicate_tool_error(name)),
        }
    }

    /// The tool registered under `name`, if any.
    pub fn get(&self, name: &str) -> (r: Option<&T>)
        ensures
            match r {
                Some(t) => self.view().contains_key(name@) && self.view()[name@] == *t,
                None => !self.view().contains_key(name@),
            },
    {
        self.tools.get(name)
    }

    /// Whether a tool is registered under `name`.
    pub fn contains(&self, name: &str) -> (r: bool)
        ensures
            r == self.view().contains_key(name@),
    {
        self.tools.contains(name)
    }

    /// The registered names, in the order they were registered.
    pub fn list_tools(&self) -> (r: Vec<String>)
        ensures
            r@.map_values(|s: String| s@) == self.order(),
            r@.map_values(|s: String| s@).to_set() == self.view().dom(),
    {
        self.tools.names()
    }

    /// Removes the tool registered under `name`; fails when there is none.
    pub fn unregister(&mut self, name: &str) -> (r: Result<(), Error>)
        ensures
            old(self).view().contains_key(name@) ==> r is Ok,
            !old(self).view().contains_key(name@) ==> (r matches Err(Error::Internal(m))
                && m@ == "Tool '"@ + name@ + "' not found"@),
            final(self).view() == old(self).view().remove(name@),
    {
        match self.tools.remove(name) {
            Some(_) => Ok(()),
            None => Err(missing_tool_error(name)),
        }
    }

    /// Number of registered tools.
    pub fn count(&self) -> (n: usize)
        ensures
            n == self.view().len(),
    {
        self.tools.len()
    }
}

impl<T> Default for ToolRegistry<T> {
    fn default() -> (r: Self)
        ensures
            r.view() == Map::<Seq<char>, T>::empty(),
    {
        Self::new()
    }
}

} // verus!
