use vstd::prelude::*;

verus! {

/// Why a component's data could not be read for an entity.
#[derive(Clone, Copy, PartialEq, Eq, Structural, Debug)]
pub enum GetComponentOfEntityError {
    EntityNotFound,
    ComponentNotFound,
    ComponentNotInEntity,
}

/// Why the data of a component could not be listed.
#[derive(Clone, Copy, PartialEq, Eq, Structural, Debug)]
pub enum GetComponentDataError {
    ComponentNotFound,
}

/// Why the component names of an entity could not be listed.
#[derive(Clone, Copy, PartialEq, Eq, Structural, Debug)]
pub enum GetComponentsOfEntityError {
    EntityNotFound,
}

/// Why component data could not be written.
#[derive(Clone, Copy, PartialEq, Eq, Structural, Debug)]
pub enum SetComponentDataError {
    EntityNotFound,
    ComponentNotFound,
    DataInUse,
}

/// Why an entity could not be registered.
#[derive(Clone, Copy, PartialEq, Eq, Structural, Debug)]
pub enum RegisterEntityError {
    AlreadyRegistered,
}

/// Why a schema could not be added to the schema storage.
#[derive(Clone, Copy, PartialEq, Eq, Structural, Debug)]
pub enum AddComponentError {
    NameAlreadyAdded,
}

/// Whether an entity carries a component, telling an unknown entity apart
/// from a known one that lacks the component.
#[derive(Clone, Copy, PartialEq, Eq, Structural, Debug)]
pub enum HasEntityComponentResult {
    EntityNotFound,
    EntityDoesNotHaveComponent,
    EntityHasComponent,
}

impl GetComponentOfEntityError {
    pub fn message(&self) -> (r: &'static str)
        ensures
            r@ == match self {
                GetComponentOfEntityError::EntityNotFound => "Entity with that id was not found"@,
                GetComponentOfEntityError::ComponentNotFound => "Component with that name was not found"@,
                GetComponentOfEntityError::ComponentNotInEntity => "The entity does not have that component"@,
            },
    {
        match self {
            GetComponentOfEntityError::EntityNotFound => "Entity with that id was not found",
            GetComponentOfEntityError::ComponentNotFound => "Component with that name was not found",
            GetComponentOfEntityError::ComponentNotInEntity => "The entity does not have that component",
        }
    }
}

impl GetComponentDataError {
    pub fn message(&self) -> (r: &'static str)
        ensures
            r@ == match self {
                GetComponentDataError::ComponentNotFound => "Component with that name was not found"@,
            },
    {
        match self {
            GetComponentDataError::ComponentNotFound => "Component with that name was not found",
        }
    }
}

impl GetComponentsOfEntityError {
    pub fn message(&self) -> (r: &'static str)
        ensures
            r@ == match self {
                GetComponentsOfEntityError::EntityNotFound => "Entity with that id was not found"@,
            },
    {
        match self {
            GetComponentsOfEntityError::EntityNotFound => "Entity with that id was not found",
        }
    }
}

impl SetComponentDataError {
    pub fn message(&self) -> (r: &'static str)
        ensures
            r@ == match self {
                SetComponentDataError::EntityNotFound => "Entity with that id was not found"@,
                SetComponentDataError::ComponentNotFound => "Component with that name was not found"@,
                SetComponentDataError::DataInUse => "The data is already exclusively borrowed"@,
            },
    {
        match self {
            SetComponentDataError::EntityNotFound => "Entity with that id was not found",
            SetComponentDataError::ComponentNotFound => "Component with that name was not found",
            SetComponentDataError::DataInUse => "The data is already exclusively borrowed",
        }
    }
}

impl RegisterEntityError {
    pub fn message(&self) -> (r: &'static str)
        ensures
            r@ == match self {
                RegisterEntityError::AlreadyRegistered => "Entity with that id is already registered"@,
            },
    {
        match self {
            RegisterEntityError::AlreadyRegistered => "Entity with that id is already registered",
        }
    }
}

impl AddComponentError {
    pub fn message(&self) -> (r: &'static str)
        ensures
            r@ == match self {
                AddComponentError::NameAlreadyAdded => "Another component with that name already exists"@,
            },
    {
        match self {
            AddComponentError::NameAlreadyAdded => "Another component with that name already exists",
        }
    }
}

} // verus!
