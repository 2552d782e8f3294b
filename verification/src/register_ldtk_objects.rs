//! Registration of the objects that are spawned for LDtk entities and IntGrid cells.

use vstd::prelude::*;
use crate::registry::FactoryRegistry;

verus! {

/// Entity factories by layer identifier and entity identifier.
pub type LdtkEntityMap<E> = FactoryRegistry<String, String, E>;

/// IntGrid cell factories by layer identifier and cell value.
pub type LdtkIntCellMap<C> = FactoryRegistry<String, i32, C>;

/// Provides functions to register factories for particular LDtk layer
/// identifiers, entity identifiers, and IntGrid values.
///
/// A registration with an absent filter applies to any value in that place,
/// so one entity or cell may match several registrations. They are preferred
/// from the most to the least specific:
/// 1. layer and entity identifier (or value) are given
/// 2. just the entity identifier (or value) is given
/// 3. just the layer identifier is given
/// 4. neither is given
pub trait RegisterLdtkObjects<E, C>: Sized {
    /// The registered entity factories.
    spec fn entity_registrations(&self) -> Map<(Option<Seq<char>>, Option<Seq<char>>), E>;

    /// The registered IntGrid cell factories.
    spec fn int_cell_registrations(&self) -> Map<(Option<Seq<char>>, Option<i32>), C>;

    /// Validity of the tables behind the two maps.
    spec fn registrations_wf(&self) -> bool;

    /// Registers an entity factory under an optional layer identifier and an
    /// optional entity identifier. All the other entity registrations go
    /// through this one.
    fn register_ldtk_entity_for_layer_optional(
        &mut self,
        layer_identifier: Option<String>,
        entity_identifier: Option<String>,
        entity: E,
    )
        requires
            old(self).registrations_wf(),
        ensures
            final(self).registrations_wf(),
            final(self).entity_registrations() == old(self).entity_registrations().insert(
                (
                    crate::registry::filter_view(layer_identifier),
                    crate::registry::filter_view(entity_identifier),
                ),
                entity,
            ),
            final(self).int_cell_registrations() == old(self).int_cell_registrations(),
    ;

    /// Registers an entity factory for a given entity identifier on a given layer.
    fn register_ldtk_entity_for_layer(
        &mut self,
        layer_identifier: &str,
        entity_identifier: &str,
        entity: E,
    )
        requires
            old(self).registrations_wf(),
        ensures
            final(self).registrations_wf(),
            final(self).entity_registrations() == old(self).entity_registrations().insert(
                (Some(layer_identifier@), Some(entity_identifier@)),
                entity,
            ),
            final(self).int_cell_registrations() == old(self).int_cell_registrations(),
    {
        self.register_ldtk_entity_for_layer_optional(
            Some(layer_identifier.to_owned()),
            Some(entity_identifier.to_owned()),
            entity,
        )
    }

    /// Registers an entity factory for a given entity identifier on all layers.
    fn register_ldtk_entity(&mut self, entity_identifier: &str, entity: E)
        requires
            old(self).registrations_wf(),
        ensures
            final(self).registrations_wf(),
            final(self).entity_registrations() == old(self).entity_registrations().insert(
                (None, Some(entity_identifier@)),
                entity,
            ),
            final(self).int_cell_registrations() == old(self).int_cell_registrations(),
    {
        self.register_ldtk_entity_for_layer_optional(
            None,
            Some(entity_identifier.to_owned()),
            entity,
        )
    }

    /// Registers an entity factory for all entities on a given layer.
    fn register_default_ldtk_entity_for_layer(&mut self, layer_identifier: &str, entity: E)
        requires
            old(self).registrations_wf(),
        ensures
            final(self).registrations_wf(),
            final(self).entity_registrations() == old(self).entity_registrations().insert(
                (Some(layer_identifier@), None),
                entity,
            ),
            final(self).int_cell_registrations() == old(self).int_cell_registrations(),
    {
        self.register_ldtk_entity_for_layer_optional(Some(layer_identifier.to_owned()), None, entity)
    }

    /// Registers an entity factory for any entity on any layer.
    fn register_default_ldtk_entity(&mut self, entity: E)
        requires
            old(self).registrations_wf(),
        ensures
            final(self).registrations_wf(),
            final(self).entity_registrations() == old(self).entity_registrations().insert(
                (None, None),
                entity,
            ),
            final(self).int_cell_registrations() == old(self).int_cell_registrations(),
    {
        self.register_ldtk_entity_for_layer_optional(None, None, entity)
    }

    /// Registers an IntGrid cell factory under an optional layer identifier
    /// and an optional cell value. All the other cell registrations go
    /// through this one.
    fn register_ldtk_int_cell_for_layer_optional(
        &mut self,
        layer_identifier: Option<String>,
        value: Option<i32>,
        int_cell: C,
    )
        requires
            old(self).registrations_wf(),
        ensures
            final(self).registrations_wf(),
            final(self).int_cell_registrations() == old(self).int_cell_registrations().insert(
                (crate::registry::filter_view(layer_identifier), value),
                int_cell,
            ),
            final(self).entity_registrations() == old(self).entity_registrations(),
    ;

    /// Registers an IntGrid cell factory for a given value on a given layer.
    fn register_ldtk_int_cell_for_layer(&mut self, layer_identifier: &str, value: i32, int_cell: C)
        requires
            old(self).registrations_wf(),
        ensures
            final(self).registrations_wf(),
            final(self).int_cell_registrations() == old(self).int_cell_registrations().insert(
                (Some(layer_identifier@), Some(value)),
                int_cell,
            ),
            final(self).entity_registrations() == old(self).entity_registrations(),
    {
        self.register_ldtk_int_cell_for_layer_optional(
            Some(layer_identifier.to_owned()),
            Some(value),
            int_cell,
        )
    }

    /// Registers an IntGrid cell factory for a given value on all layers.
    fn register_ldtk_int_cell(&mut self, value: i32, int_cell: C)
        requires
            old(self).registrations_wf(),
        ensures
            final(self).registrations_wf(),
            final(self).int_cell_registrations() == old(self).int_cell_registrations().insert(
                (None, Some(value)),
                int_cell,
            ),
            final(self).entity_registrations() == old(self).entity_registrations(),
    {
        self.register_ldtk_int_cell_for_layer_optional(None, Some(value), int_cell)
    }

    /// Registers an IntGrid cell factory for all cells on a given layer.
    fn register_default_ldtk_int_cell_for_layer(&mut self, layer_identifier: &str, int_cell: C)
        requires
            old(self).registrations_wf(),
        ensures
            final(self).registrations_wf(),
            final(self).int_cell_registrations() == old(self).int_cell_registrations().insert(
                (Some(layer_identifier@), None),
                int_cell,
            ),
            final(self).entity_registrations() == old(self).entity_registrations(),
    {
        self.register_ldtk_int_cell_for_layer_optional(
            Some(layer_identifier.to_owned()),
            None,
            int_cell,
        )
    }

    /// Registers an IntGrid cell factory for any cell on any layer.
    fn register_default_ldtk_int_cell(&mut self, int_cell: C)
        requires
            old(self).registrations_wf(),
        ensures
            final(self).registrations_wf(),
            final(self).int_cell_registrations() == old(self).int_cell_registrations().insert(
                (None, None),
                int_cell,
            ),
            final(self).entity_registrations() == old(self).entity_registrations(),
    {
        self.register_ldtk_int_cell_for_layer_optional(None, None, int_cell)
    }
}

/// The two tables of registered objects.
pub struct LdtkObjects<E, C> {
    pub entities: LdtkEntityMap<E>,
    pub int_cells: LdtkIntCellMap<C>,
}

impl<E, C> LdtkObjects<E, C> {
    /// Two empty tables.
    pub fn new() -> (objects: Self)
        ensures
            objects.registrations_wf(),
            objects.entity_registrations() == Map::<
                (Option<Seq<char>>, Option<Seq<char>>),
                E,
            >::empty(),
            objects.int_cell_registrations() == Map::<(Option<Seq<char>>, Option<i32>), C>::empty(),
    {
        LdtkObjects { entities: FactoryRegistry::new(), int_cells: FactoryRegistry::new() }
    }
}

impl<E, C> RegisterLdtkObjects<E, C> for LdtkObjects<E, C> {
    open spec fn entity_registrations(&self) -> Map<(Option<Seq<char>>, Option<Seq<char>>), E> {
        self.entities@
    }

    open spec fn int_cell_registrations(&self) -> Map<(Option<Seq<char>>, Option<i32>), C> {
        self.int_cells@
    }

    open spec fn registrations_wf(&self) -> bool {
        self.entities.wf() && self.int_cells.wf()
    }

    fn register_ldtk_entity_for_layer_optional(
        &mut self,
        layer_identifier: Option<String>,
        entity_identifier: Option<String>,
        entity: E,
    ) {
        self.entities.register(layer_identifier, entity_identifier, entity);
    }

    fn register_ldtk_int_cell_for_layer_optional(
        &mut self,
        layer_identifier: Option<String>,
        value: Option<i32>,
        int_cell: C,
    ) {
        self.int_cells.register(layer_identifier, value, int_cell);
    }
}

} // verus!
