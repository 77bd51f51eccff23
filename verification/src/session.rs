//! The per-consumer session controller.
//!
//! Each consumer (a terminal, a socket connection) owns exactly one
//! compiler-to-engine pipeline.  When the query text changes, the
//! consumer recompiles and hands the result here: only a program or
//! schema that actually differs replaces the current execution session,
//! and the replacement always starts from an empty result set — rows of
//! the superseded session never leak into the new one.  The caller
//! aborts the old session's driving task exactly when told to restart.

use vstd::prelude::*;
use crate::engine::{EngineState, rows_view};
use crate::textutil::{clone_string_vec, str_eq, string_vecs_eq};

verus! {

/// The connection-local state: the last compiled program text, its
/// output-column headers, and the current execution session.
pub struct SessionController {
    pub program: String,
    pub headers: Vec<String>,
    pub session: EngineState,
}

impl SessionController {
    /// A controller with no program yet and an empty, streaming session.
    pub fn new() -> (s: Self)
        ensures
            s.program@ == Seq::<char>::empty(),
            s.headers.deep_view() == Seq::<Seq<char>>::empty(),
            rows_view(s.session) == Seq::<Seq<Seq<char>>>::empty(),
            s.session.phase is Streaming,
    {
        let s = SessionController {
            program: String::new(),
            headers: Vec::new(),
            session: EngineState::new(Vec::new()),
        };
        proof {
            assert(s.headers.deep_view() =~= Seq::<Seq<char>>::empty());
        }
        s
    }

    /// Law (a restart starts empty): handed a freshly compiled program,
    /// the controller replaces the current session exactly when the
    /// program text or the headers differ from the running ones, and the
    /// replacement session carries the new headers and not a single row —
    /// the previous session's rows are discarded, never merged.
    pub fn update_compiled(&mut self, program: String, headers: Vec<String>) -> (restarted: bool)
        ensures
            restarted == !(program@ == old(self).program@ && headers.deep_view() == old(
                self,
            ).headers.deep_view()),
            restarted ==> final(self).program@ == program@ && final(self).headers.deep_view()
                == headers.deep_view() && final(self).session.headers.deep_view()
                == headers.deep_view() && rows_view(final(self).session) == Seq::<
                Seq<Seq<char>>,
            >::empty() && final(self).session.phase is Streaming,
            !restarted ==> *final(self) == *old(self),
    {
        let same = str_eq(self.program.as_str(), program.as_str()) && string_vecs_eq(
            &self.headers,
            &headers,
        );
        if same {
            return false;
        }
        let session_headers = clone_string_vec(&headers);
        self.program = program;
        self.headers = headers;
        self.session = EngineState::new(session_headers);
        true
    }
}

} // verus!
