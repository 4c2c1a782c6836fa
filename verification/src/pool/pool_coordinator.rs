//! The limit on the connections of all the pools of one database.
use vstd::prelude::*;

verus! {

/// The limits of a coordinator.
#[derive(Debug, Clone, Copy, PartialEq, Eq, Structural)]
pub struct CoordinatorConfig {
    pub max_db_connections: usize,
    pub min_connection_lifetime_ms: u64,
    pub reserve_pool_size: usize,
    pub reserve_pool_timeout_ms: u64,
}

/// The leave to hold one connection of the database.
#[derive(Debug, Clone, Copy, PartialEq, Eq, Structural)]
pub struct CoordinatorPermit {
    /// The connection counts against the reserve.
    pub is_reserve: bool,
}

/// Counts the connections of a database.
#[derive(Debug)]
pub struct PoolCoordinator {
    pub database: String,
    pub config: CoordinatorConfig,
    /// Connections that count against the limit.
    pub main_in_use: usize,
    /// Connections that count against the reserve.
    pub reserve_in_use: usize,
}

impl PoolCoordinator {
    /// No more connections are counted than the limits allow.
    pub open spec fn wf(&self) -> bool {
        &&& self.main_in_use <= self.config.max_db_connections
        &&& self.reserve_in_use <= self.config.reserve_pool_size
    }

    /// A coordinator that counts no connection yet.
    pub fn new(database: String, config: CoordinatorConfig) -> (r: PoolCoordinator)
        ensures
            r.wf(),
            r.database == database,
            r.config == config,
            r.main_in_use == 0,
            r.reserve_in_use == 0,
    {
        PoolCoordinator { database, config, main_in_use: 0, reserve_in_use: 0 }
    }

    /// How many connections the limit still allows.
    pub fn available_main_permits(&self) -> (n: usize)
        requires
            self.wf(),
        ensures
            n == self.config.max_db_connections - self.main_in_use,
    {
        self.config.max_db_connections - self.main_in_use
    }

    /// Takes a permit if the limit allows one more connection.
    pub fn try_acquire(&mut self) -> (r: Option<CoordinatorPermit>)
        requires
            old(self).wf(),
        ensures
            final(self).wf(),
            r.is_some() == (old(self).main_in_use < old(self).config.max_db_connections),
            r.is_some() ==> !r.unwrap().is_reserve,
            *final(self) == (PoolCoordinator {
                main_in_use: if r.is_some() {
                    (old(self).main_in_use + 1) as usize
                } else {
                    old(self).main_in_use
                },
                ..*old(self)
            }),
    {
        if self.main_in_use < self.config.max_db_connections {
            self.main_in_use = self.main_in_use + 1;
            Some(CoordinatorPermit { is_reserve: false })
        } else {
            None
        }
    }

    /// Moves one connection from the reserve to the limit proper, if that has
    /// room.
    pub fn try_upgrade_reserve_to_main(&mut self) -> (r: bool)
        requires
            old(self).wf(),
            old(self).reserve_in_use > 0,
        ensures
            final(self).wf(),
            r == (old(self).main_in_use < old(self).config.max_db_connections),
            *final(self) == (PoolCoordinator {
                main_in_use: if r {
                    (old(self).main_in_use + 1) as usize
                } else {
                    old(self).main_in_use
                },
                reserve_in_use: if r {
                    (old(self).reserve_in_use - 1) as usize
                } else {
                    old(self).reserve_in_use
                },
                ..*old(self)
            }),
    {
        if self.main_in_use < self.config.max_db_connections {
            self.main_in_use = self.main_in_use + 1;
            self.reserve_in_use = self.reserve_in_use - 1;
            true
        } else {
            false
        }
    }

    /// Gives a permit back.
    pub fn release(&mut self, permit: CoordinatorPermit)
        requires
            old(self).wf(),
            permit.is_reserve ==> old(self).reserve_in_use > 0,
            !permit.is_reserve ==> old(self).main_in_use > 0,
        ensures
            final(self).wf(),
            *final(self) == (PoolCoordinator {
                main_in_use: if permit.is_reserve {
                    old(self).main_in_use
                } else {
                    (old(self).main_in_use - 1) as usize
                },
                reserve_in_use: if permit.is_reserve {
                    (old(self).reserve_in_use - 1) as usize
                } else {
                    old(self).reserve_in_use
                },
                ..*old(self)
            }),
    {
        if permit.is_reserve {
            self.reserve_in_use = self.reserve_in_use - 1;
        } else {
            self.main_in_use = self.main_in_use - 1;
        }
    }
}

} // verus!
