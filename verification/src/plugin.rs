//! What every plugin answers to.

use crate::protocol::Request;
use vstd::prelude::*;

verus! {

/// A plugin of the launcher. Each plugin says what searching, activating and
/// completing come to; the other verbs are accepted by every plugin and do
/// nothing. A request is handed to the method of its verb.
pub trait PopLauncherPlugin: Sized {
    /// What the plugin is told of the world outside with each request.
    type World;

    /// What the plugin asks for in answer to a request.
    type Answer;

    /// Whether the plugin can take a request, given what it is told of the
    /// world.
    spec fn ready(&self, world: &Self::World) -> bool;

    /// Whether `answer` asks for nothing.
    spec fn is_silent(answer: &Self::Answer) -> bool;

    /// Whether a search for `query` leads from `pre` to `post` with `answer`.
    spec fn searched(
        pre: &Self,
        query: Seq<char>,
        world: &Self::World,
        post: &Self,
        answer: &Self::Answer,
    ) -> bool;

    /// Whether activating the result `id` leads from `pre` to `post` with
    /// `answer`.
    spec fn activated(
        pre: &Self,
        id: u32,
        world: &Self::World,
        post: &Self,
        answer: &Self::Answer,
    ) -> bool;

    /// Whether completing the result `id` leads from `pre` to `post` with
    /// `answer`.
    spec fn completed(
        pre: &Self,
        id: u32,
        world: &Self::World,
        post: &Self,
        answer: &Self::Answer,
    ) -> bool;

    /// The answer that asks for nothing.
    fn silent() -> (answer: Self::Answer)
        ensures
            Self::is_silent(&answer),
    ;

    /// Answers a search for `query`.
    fn search(&mut self, query: &str, world: &Self::World) -> (answer: Self::Answer)
        requires
            old(self).ready(world),
        ensures
            final(self).ready(world),
            Self::searched(old(self), query@, world, final(self), &answer),
    ;

    /// Activates the result with the identifier `id`.
    fn activate(&mut self, id: u32, world: &Self::World) -> (answer: Self::Answer)
        requires
            old(self).ready(world),
        ensures
            final(self).ready(world),
            Self::activated(old(self), id, world, final(self), &answer),
    ;

    /// Completes the query from the result with the identifier `id`.
    fn complete(&mut self, id: u32, world: &Self::World) -> (answer: Self::Answer)
        requires
            old(self).ready(world),
        ensures
            final(self).ready(world),
            Self::completed(old(self), id, world, final(self), &answer),
    ;

    /// Activates a context entry of a result: nothing happens.
    fn activate_context(&self, id: u32, context: u32) -> (answer: Self::Answer)
        ensures
            Self::is_silent(&answer),
    {
        Self::silent()
    }

    /// Asks for the context entries of a result: there are none.
    fn context(&self, id: u32) -> (answer: Self::Answer)
        ensures
            Self::is_silent(&answer),
    {
        Self::silent()
    }

    /// The launcher ends the plugin: nothing happens.
    fn exit(&self) -> (answer: Self::Answer)
        ensures
            Self::is_silent(&answer),
    {
        Self::silent()
    }

    /// The launcher interrupts the plugin: nothing happens.
    fn interrupt(&self) -> (answer: Self::Answer)
        ensures
            Self::is_silent(&answer),
    {
        Self::silent()
    }

    /// Asks the application behind a result to quit: nothing happens.
    fn quit(&self, id: u32) -> (answer: Self::Answer)
        ensures
            Self::is_silent(&answer),
    {
        Self::silent()
    }

    /// Handles one request: searching, activating and completing go to the
    /// method of that name, and every other verb leaves the plugin as it is and
    /// asks for nothing.
    fn request(&mut self, request: Request, world: &Self::World) -> (answer: Self::Answer)
        requires
            old(self).ready(world),
        ensures
            final(self).ready(world),
            match request {
                Request::Search(query) => Self::searched(
                    old(self),
                    query@,
                    world,
                    final(self),
                    &answer,
                ),
                Request::Activate(id) => Self::activated(old(self), id, world, final(self), &answer),
                Request::Complete(id) => Self::completed(old(self), id, world, final(self), &answer),
                _ => *final(self) == *old(self) && Self::is_silent(&answer),
            },
    {
        match request {
            Request::Search(query) => self.search(query.as_str(), world),
            Request::Activate(id) => self.activate(id, world),
            Request::ActivateContext { id, context } => self.activate_context(id, context),
            Request::Complete(id) => self.complete(id, world),
            Request::Context(id) => self.context(id),
            Request::Exit => self.exit(),
            Request::Interrupt => self.interrupt(),
            Request::Quit(id) => self.quit(id),
        }
    }
}

} // verus!
