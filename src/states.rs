//! The application state machine and the set of in-game entities.
use vstd::prelude::*;

verus! {

/// What the player is doing while in a game.
#[derive(Clone, Copy, Debug, PartialEq, Eq, Structural)]
pub enum GameState {
    Playing,
    Editing,
    Paused,
}

/// The application's state; a game state exists only inside `InGame`.
#[derive(Clone, Copy, Debug, PartialEq, Eq, Structural)]
pub enum AppState {
    MainMenu,
    InGame(GameState),
}

impl AppState {
    /// The state the application starts in.
    pub fn initial() -> (r: AppState)
        ensures
            r == AppState::MainMenu,
    {
        AppState::MainMenu
    }

    /// The game state, while in a game.
    pub fn game_state(&self) -> (r: Option<GameState>)
        ensures
            r == match *self {
                AppState::MainMenu => None,
                AppState::InGame(g) => Some(g),
            },
    {
        match self {
            AppState::MainMenu => None,
            AppState::InGame(g) => Some(*g),
        }
    }
}

/// A request to remove a list of entities.
#[derive(Debug)]
pub struct DespawnEntities(pub Vec<u64>);

/// The live entities, by handle, each held once.
#[derive(Debug)]
pub struct EntitySet {
    handles: Vec<u64>,
}

impl View for EntitySet {
    type V = Set<u64>;

    closed spec fn view(&self) -> Set<u64> {
        self.handles@.to_set()
    }
}

impl EntitySet {
    /// No entities.
    pub fn new() -> (r: EntitySet)
        ensures
            r@ == Set::<u64>::empty(),
    {
        let r = EntitySet { handles: Vec::new() };
        assert(r@ =~= Set::<u64>::empty());
        r
    }

    /// Whether `h` is live.
    pub fn contains(&self, h: u64) -> (r: bool)
        ensures
            r == self@.contains(h),
    {
        let mut k: usize = 0;
        while k < self.handles.len()
            invariant
                k <= self.handles@.len(),
                forall|j: int| 0 <= j < k ==> self.handles@[j] != h,
            decreases self.handles@.len() - k,
        {
            if self.handles[k] == h {
                assert(self.handles@.contains(h));
                return true;
            }
            k = k + 1;
        }
        false
    }

    /// Whether no entity is live.
    pub fn is_empty(&self) -> (r: bool)
        ensures
            r == (self@ == Set::<u64>::empty()),
    {
        if self.handles.len() == 0 {
            assert(self@ =~= Set::<u64>::empty());
            true
        } else {
            assert(self@.contains(self.handles@[0]));
            false
        }
    }

    /// Adds `h`; a handle already live stays once.
    pub fn insert(&mut self, h: u64)
        ensures
            final(self)@ == old(self)@.insert(h),
    {
        if !self.contains(h) {
            let ghost prev = self.handles@;
            self.handles.push(h);
            assert forall|x: u64| self.handles@.contains(x) <==> prev.contains(x) || x == h by {
                if self.handles@.contains(x) && x != h {
                    let i = choose|i: int| 0 <= i < self.handles@.len() && self.handles@[i] == x;
                    assert(prev[i] == x);
                }
                if prev.contains(x) {
                    let i = choose|i: int| 0 <= i < prev.len() && prev[i] == x;
                    assert(self.handles@[i] == x);
                }
                if x == h {
                    assert(self.handles@[prev.len() as int] == x);
                }
            }
        }
        assert(self@ =~= old(self)@.insert(h));
    }

    /// Removes every entity.
    pub fn clear(&mut self)
        ensures
            final(self)@ == Set::<u64>::empty(),
    {
        self.handles = Vec::new();
        assert(self@ =~= Set::<u64>::empty());
    }
}

/// Whether `s` holds `h`.
fn list_contains(s: &Vec<u64>, h: u64) -> (r: bool)
    ensures
        r == s@.contains(h),
{
    let mut k: usize = 0;
    while k < s.len()
        invariant
            k <= s@.len(),
            forall|j: int| 0 <= j < k ==> s@[j] != h,
        decreases s@.len() - k,
    {
        if s[k] == h {
            assert(s@.contains(h));
            return true;
        }
        k = k + 1;
    }
    false
}

/// Removes every entity that the request lists; one listed that is not live
/// is passed over.
pub fn despawn_entities_observer(entities: &mut EntitySet, request: DespawnEntities)
    ensures
        final(entities)@ == old(entities)@.difference(request.0@.to_set()),
{
    let gone = request.0;
    let old_handles = &entities.handles;
    let mut kept: Vec<u64> = Vec::new();
    let mut k: usize = 0;
    while k < old_handles.len()
        invariant
            k <= old_handles@.len(),
            forall|x: u64|
                kept@.contains(x) <==> (exists|j: int|
                    0 <= j < k && old_handles@[j] == x) && !gone@.contains(x),
        decreases old_handles@.len() - k,
    {
        let h = old_handles[k];
        if !list_contains(&gone, h) {
            let ghost prev = kept@;
            kept.push(h);
            assert forall|x: u64|
                kept@.contains(x) <==> (exists|j: int|
                    0 <= j < k + 1 && old_handles@[j] == x) && !gone@.contains(x) by {
                if x == h {
                    assert(kept@[kept@.len() - 1] == x);
                    assert(old_handles@[k as int] == x);
                } else {
                    if kept@.contains(x) {
                        let i = choose|i: int| 0 <= i < kept@.len() && kept@[i] == x;
                        assert(prev[i] == x);
                    }
                    if prev.contains(x) {
                        let i = choose|i: int| 0 <= i < prev.len() && prev[i] == x;
                        assert(kept@[i] == x);
                    }
                    if (exists|j: int| 0 <= j < k + 1 && old_handles@[j] == x) {
                        let j = choose|j: int| 0 <= j < k + 1 && old_handles@[j] == x;
                        assert(j < k);
                    }
                }
            }
        } else {
            assert forall|x: u64|
                kept@.contains(x) <==> (exists|j: int|
                    0 <= j < k + 1 && old_handles@[j] == x) && !gone@.contains(x) by {
                if (exists|j: int| 0 <= j < k + 1 && old_handles@[j] == x) && !gone@.contains(x) {
                    let j = choose|j: int| 0 <= j < k + 1 && old_handles@[j] == x;
                    assert(j != k);
                }
            }
        }
        k = k + 1;
    }
    entities.handles = kept;
    assert(entities@ =~= old(entities)@.difference(gone@.to_set())) by {
        assert forall|x: u64| entities@.contains(x) == old(entities)@.difference(
            gone@.to_set(),
        ).contains(x) by {
            if old(entities)@.contains(x) {
                let j = choose|j: int| 0 <= j < old(entities).handles@.len() && old(entities).handles@[j] == x;
            }
        }
    }
}

} // verus!
