use vstd::prelude::*;

verus! {

/// The append-only log of actions, oldest first.
pub struct ActionHistory {
    actions: Vec<String>,
}

impl View for ActionHistory {
    type V = Seq<Seq<char>>;

    closed spec fn view(&self) -> Seq<Seq<char>> {
        self.actions.deep_view()
    }
}

impl ActionHistory {
    /// An empty log.
    pub fn new() -> (r: ActionHistory)
        ensures
            r@ == Seq::<Seq<char>>::empty(),
    {
        let r = ActionHistory { actions: Vec::new() };
        assert(r@ =~= Seq::<Seq<char>>::empty());
        r
    }

    /// The log that was read back, or an empty one where nothing could be read.
    pub fn from_decoded(decoded: Option<Vec<String>>) -> (r: ActionHistory)
        ensures
            match decoded {
                Some(actions) => r@ == actions.deep_view(),
                None => r@ == Seq::<Seq<char>>::empty(),
            },
    {
        match decoded {
            Some(actions) => ActionHistory { actions },
            None => ActionHistory::new(),
        }
    }

    /// Adds `message` at the end of the log.
    pub fn append(&mut self, message: String)
        ensures
            final(self)@ == old(self)@.push(message@),
    {
        self.actions.push(message);
        assert(final(self)@ =~= old(self)@.push(message@));
    }

    /// Whether no action was logged.
    pub fn is_empty(&self) -> (r: bool)
        ensures
            r == (self@.len() == 0),
    {
        self.actions.len() == 0
    }

    /// The entries, oldest first.
    pub fn actions(&self) -> (r: &Vec<String>)
        ensures
            r.deep_view() == self@,
    {
        &self.actions
    }
}

} // verus!
