//! The scene graph the encoder reads: nodes with named, typed properties.
//!
//! Floating-point fields hold the IEEE-754 bit pattern of the number
//! (`f32::to_bits` / `f64::to_bits`), so that every value is a plain integer
//! and the encoder writes exactly the bytes of the float.
use crate::spec::TypeId;
use vstd::prelude::*;

verus! {

/// A rigid transform: a 3x3 rotation and a position.
#[derive(Clone, Copy, Debug)]
pub struct Frame {
    /// Id of the axis-aligned rotation the matrix equals, or 0 when it is
    /// none of them.
    pub rotation_id: u8,
    /// Rotation matrix, row by row, as `f32` bit patterns.
    pub rotation: [u32; 9],
    /// Position, as `f32` bit patterns.
    pub position: [u32; 3],
}

/// A typed property payload. Each variant is one kind of the closed set the
/// wire format supports; floats are held as their bit patterns.
#[derive(Debug)]
pub enum Value {
    /// Text; written as a length-prefixed byte string.
    String(String),
    /// Named values, in order; may nest.
    Attributes(Vec<(String, Value)>),
    /// Axis flags (X = 1, Y = 2, Z = 4).
    Axes(u8),
    Bool(bool),
    /// A brick color, by its name.
    BrickColor(String),
    CFrame(Frame),
    /// Linear red, green, blue.
    Color3([u32; 3]),
    /// Byte red, green, blue.
    Color3uint8([u8; 3]),
    /// Keypoints of time, red, green, blue.
    ColorSequence(Vec<[u32; 4]>),
    /// An enumeration item, by its ordinal.
    Enum(u32),
    /// Face flags (right, top, back, left, bottom, front).
    Faces(u8),
    Float32(u32),
    Float64(u64),
    Int32(i32),
    /// Terrain material colors in their 69-byte serialized form.
    MaterialColors([u8; 69]),
    /// Minimum and maximum.
    NumberRange([u32; 2]),
    /// Keypoints of envelope, time, value.
    NumberSequence(Vec<[u32; 3]>),
    OptionalCFrame(Option<Frame>),
    DefaultPhysicalProperties,
    /// Density, elasticity, elasticity weight, friction, friction weight.
    CustomPhysicalProperties([u32; 5]),
    /// Direction, then origin.
    Ray([u32; 6]),
    /// Minimum x, y, then maximum x, y.
    Rect([u32; 4]),
    /// A reference to another node, by identity, or to nothing.
    Ref(Option<u128>),
    /// Minimum x, y, z, then maximum x, y, z.
    Region3([u32; 6]),
    /// Minimum x, y, z, then maximum x, y, z.
    Region3int16([i16; 6]),
    SecurityCapabilities(u64),
    BinaryString(Vec<u8>),
    Tags(Vec<String>),
    /// Offset, then scale.
    UDim(i32, u32),
    /// X offset, Y offset, X scale, Y scale.
    UDim2(i32, i32, u32, u32),
    Vector2([u32; 2]),
    Vector2int16([i16; 2]),
    Vector3([u32; 3]),
    Vector3int16([i16; 3]),
    /// Family, weight, style.
    Font(String, u16, u8),
    ContentNone,
    /// Content that points at a node.
    ContentObject(u128),
    /// Content that points at a URI.
    ContentUri(String),
}

impl Value {
    /// The kind this value is written as: the tag byte that starts its encoding.
    pub open spec fn kind(&self) -> TypeId {
        match self {
            Value::String(_) => TypeId::String,
            Value::Attributes(_) => TypeId::Attributes,
            Value::Axes(_) => TypeId::Axes,
            Value::Bool(_) => TypeId::Bool,
            Value::BrickColor(_) => TypeId::BrickColor,
            Value::CFrame(_) => TypeId::CFrame,
            Value::Color3(_) => TypeId::Color3,
            Value::Color3uint8(_) => TypeId::Color3uint8,
            Value::ColorSequence(_) => TypeId::ColorSequence,
            Value::Enum(_) => TypeId::Enum,
            Value::Faces(_) => TypeId::Faces,
            Value::Float32(_) => TypeId::Float32,
            Value::Float64(_) => TypeId::Float64,
            Value::Int32(_) => TypeId::Int32,
            Value::MaterialColors(_) => TypeId::MaterialColors,
            Value::NumberRange(_) => TypeId::NumberRange,
            Value::NumberSequence(_) => TypeId::NumberSequence,
            Value::OptionalCFrame(f) => if f.is_some() {
                TypeId::CFrame
            } else {
                TypeId::Nil
            },
            Value::DefaultPhysicalProperties => TypeId::DefaultPhysicalProperties,
            Value::CustomPhysicalProperties(_) => TypeId::CustomPhysicalProperties,
            Value::Ray(_) => TypeId::Ray,
            Value::Rect(_) => TypeId::Rect,
            Value::Ref(r) => if r.is_some() {
                TypeId::Ref
            } else {
                TypeId::Nil
            },
            Value::Region3(_) => TypeId::Region3,
            Value::Region3int16(_) => TypeId::Region3int16,
            Value::SecurityCapabilities(_) => TypeId::SecurityCapabilities,
            Value::BinaryString(_) => TypeId::BinaryString,
            Value::Tags(_) => TypeId::Tags,
            Value::UDim(..) => TypeId::UDim,
            Value::UDim2(..) => TypeId::UDim2,
            Value::Vector2(_) => TypeId::Vector2,
            Value::Vector2int16(_) => TypeId::Vector2int16,
            Value::Vector3(_) => TypeId::Vector3,
            Value::Vector3int16(_) => TypeId::Vector3int16,
            Value::Font(..) => TypeId::Font,
            Value::ContentNone => TypeId::ContentNone,
            Value::ContentObject(_) => TypeId::ContentObject,
            Value::ContentUri(_) => TypeId::ContentUri,
        }
    }

    /// The kind this value is written as.
    pub fn type_id(&self) -> (r: TypeId)
        ensures
            r == self.kind(),
    {
        match self {
            Value::String(_) => TypeId::String,
            Value::Attributes(_) => TypeId::Attributes,
            Value::Axes(_) => TypeId::Axes,
            Value::Bool(_) => TypeId::Bool,
            Value::BrickColor(_) => TypeId::BrickColor,
            Value::CFrame(_) => TypeId::CFrame,
            Value::Color3(_) => TypeId::Color3,
            Value::Color3uint8(_) => TypeId::Color3uint8,
            Value::ColorSequence(_) => TypeId::ColorSequence,
            Value::Enum(_) => TypeId::Enum,
            Value::Faces(_) => TypeId::Faces,
            Value::Float32(_) => TypeId::Float32,
            Value::Float64(_) => TypeId::Float64,
            Value::Int32(_) => TypeId::Int32,
            Value::MaterialColors(_) => TypeId::MaterialColors,
            Value::NumberRange(_) => TypeId::NumberRange,
            Value::NumberSequence(_) => TypeId::NumberSequence,
            Value::OptionalCFrame(f) => if f.is_some() {
                TypeId::CFrame
            } else {
                TypeId::Nil
            },
            Value::DefaultPhysicalProperties => TypeId::DefaultPhysicalProperties,
            Value::CustomPhysicalProperties(_) => TypeId::CustomPhysicalProperties,
            Value::Ray(_) => TypeId::Ray,
            Value::Rect(_) => TypeId::Rect,
            Value::Ref(r) => if r.is_some() {
                TypeId::Ref
            } else {
                TypeId::Nil
            },
            Value::Region3(_) => TypeId::Region3,
            Value::Region3int16(_) => TypeId::Region3int16,
            Value::SecurityCapabilities(_) => TypeId::SecurityCapabilities,
            Value::BinaryString(_) => TypeId::BinaryString,
            Value::Tags(_) => TypeId::Tags,
            Value::UDim(..) => TypeId::UDim,
            Value::UDim2(..) => TypeId::UDim2,
            Value::Vector2(_) => TypeId::Vector2,
            Value::Vector2int16(_) => TypeId::Vector2int16,
            Value::Vector3(_) => TypeId::Vector3,
            Value::Vector3int16(_) => TypeId::Vector3int16,
            Value::Font(..) => TypeId::Font,
            Value::ContentNone => TypeId::ContentNone,
            Value::ContentObject(_) => TypeId::ContentObject,
            Value::ContentUri(_) => TypeId::ContentUri,
        }
    }
}

/// One node of the scene graph, owning its children in order.
#[derive(Debug)]
pub struct Node {
    /// This node's identity.
    pub referent: u128,
    pub class: String,
    pub name: String,
    /// The parent's identity; `None` for a root.
    pub parent: Option<u128>,
    /// Properties in their stored order.
    pub properties: Vec<(String, Value)>,
    pub children: Vec<Node>,
}

/// A 64-bit integer as the wire carries it: as a 32-bit integer when it fits.
pub open spec fn narrowed(v: i64) -> Option<i32> {
    if i32::MIN <= v <= i32::MAX {
        Some(v as i32)
    } else {
        None
    }
}

/// Narrows a 64-bit integer to 32 bits when it fits; `None` means that the
/// value must travel as a 64-bit float instead.
pub fn narrow_int64(v: i64) -> (r: Option<i32>)
    ensures
        r == narrowed(v),
{
    if i32::MIN as i64 <= v && v <= i32::MAX as i64 {
        Some(v as i32)
    } else {
        None
    }
}

} // verus!
