//! The closed table of value kinds shared by the encoder and the decoder
//! generator: each kind's tag byte, its symbolic name, the Luau fragment that
//! decodes its payload, and the byte layout that fragment reads.
use vstd::prelude::*;
use vstd::string::StringExecFns;

verus! {

/// One tag per kind of value on the wire. The tag of a kind is its position
/// in this list, and never changes.
#[derive(Copy, Clone, PartialEq, Eq, Hash, PartialOrd, Ord, Debug, Structural)]
pub enum TypeId {
    String,
    Attributes,
    Axes,
    Bool,
    BrickColor,
    CFrame,
    Color3,
    Color3uint8,
    ColorSequence,
    Enum,
    Faces,
    Float32,
    Float64,
    Int32,
    MaterialColors,
    NumberRange,
    NumberSequence,
    Nil,
    DefaultPhysicalProperties,
    CustomPhysicalProperties,
    Ray,
    Rect,
    Ref,
    Region3,
    Region3int16,
    SecurityCapabilities,
    BinaryString,
    Tags,
    UDim,
    UDim2,
    Vector2,
    Vector2int16,
    Vector3,
    Vector3int16,
    Font,
    ContentNone,
    ContentObject,
    ContentUri,
}

/// Number of kinds in [`TypeId`].
pub const TYPE_ID_COUNT: u8 = 38;

/// How many payload bytes a decode fragment reads after the tag byte.
#[derive(Copy, Clone, PartialEq, Eq, Debug, Structural)]
pub enum Layout {
    /// Exactly this many bytes.
    Fixed(u8),
    /// One unsigned LEB128 integer.
    Varint,
    /// An unsigned LEB128 length, then that many bytes.
    VarBytes,
    /// UTF-8 bytes up to and including a zero byte.
    NullString,
    /// A zero-terminated string, then this many bytes.
    NullStringThen(u8),
    /// An unsigned LEB128 count, then that many records of this many bytes.
    Counted(u8),
    /// An unsigned LEB128 count, then that many zero-terminated strings.
    CountedNullStrings,
    /// An unsigned LEB128 count, then that many pairs of a zero-terminated
    /// name and a tagged value.
    CountedEntries,
    /// A rotation id byte, then 48 bytes when it is zero and 12 otherwise.
    Rotation,
}

/// Luau that decodes a `String` payload.
pub const FRAGMENT_STRING: &'static str = r#"
		local stringLength = nextUnsignedInteger()
		loc += stringLength
		return buffer.readstring(payloadBuffer, loc - stringLength, stringLength)
	"#;

/// Luau that decodes a `Attributes` payload.
pub const FRAGMENT_ATTRIBUTES: &'static str = r#"
		local attributesLength = nextUnsignedInteger()
		local attributeMap: { [string]: any } = {}

		while attributesLength > 0 do
			local attributeName = nextNullstring()
			attributeMap[attributeName] = nextVariant()
			-- print(attributeName, #attributeName, attributeMap[attributeName])

			attributesLength -= 1
		end

		return attributeMap
	"#;

/// Luau that decodes a `Axes` payload.
pub const FRAGMENT_AXES: &'static str = r#"
		local byte = buffer.readu8(payloadBuffer, loc)
		loc += 1
		-- bitflags
		-- const X = 1;
		-- const Y = 2;
		-- const Z = 4;
		local x = if bit32.extract(byte, 0, 1) == 1 then Enum.Axis.X else nil
		local y = if bit32.extract(byte, 1, 1) == 1 then Enum.Axis.Y else nil
		local z = if bit32.extract(byte, 2, 1) == 1 then Enum.Axis.Z else nil

		return Axes.new(x, y, z)
	"#;

/// Luau that decodes a `Bool` payload.
pub const FRAGMENT_BOOL: &'static str = r#"
		local bool = buffer.readu8(payloadBuffer, loc)
		loc += 1
		return bool == 1
	"#;

/// Luau that decodes a `BrickColor` payload.
pub const FRAGMENT_BRICK_COLOR: &'static str = r#"
		return BrickColor.new(nextNullstring() :: any)
	"#;

/// Luau that decodes a `CFrame` payload.
pub const FRAGMENT_CFRAME: &'static str = r#"
		local id = buffer.readu8(payloadBuffer, loc)
		loc += 1

		if id == 0 then
			-- all data is encoded
			local xx, xy, xz, yx, yy, yz, zx, zy, zz, positionX, positionY, positionZ =
				buffer.readf32(payloadBuffer, loc),
				buffer.readf32(payloadBuffer, loc + 4),
				buffer.readf32(payloadBuffer, loc + 8),
				buffer.readf32(payloadBuffer, loc + 12),
				buffer.readf32(payloadBuffer, loc + 16),
				buffer.readf32(payloadBuffer, loc + 20),
				buffer.readf32(payloadBuffer, loc + 24),
				buffer.readf32(payloadBuffer, loc + 28),
				buffer.readf32(payloadBuffer, loc + 32),
				buffer.readf32(payloadBuffer, loc + 36),
				buffer.readf32(payloadBuffer, loc + 40),
				buffer.readf32(payloadBuffer, loc + 44)

			loc += 48

			return CFrame.new(positionX, positionY, positionZ, xx, xy, xz, yx, yy, yz, zx, zy, zz)
		else
			local positionX, positionY, positionZ =
				buffer.readf32(payloadBuffer, loc),
				buffer.readf32(payloadBuffer, loc + 4),
				buffer.readf32(payloadBuffer, loc + 8)
			loc += 12

			return CFrame.new(positionX, positionY, positionZ) * CFRAME_ID_LOOKUP_TABLE[id]
		end
	"#;

/// Luau that decodes a `Color3` payload.
pub const FRAGMENT_COLOR3: &'static str = r#"
		local r, g, b =
			buffer.readf32(payloadBuffer, loc),
			buffer.readf32(payloadBuffer, loc + 4),
			buffer.readf32(payloadBuffer, loc + 8)

		loc += 12
		return Color3.new(r, g, b)
	"#;

/// Luau that decodes a `Color3uint8` payload.
pub const FRAGMENT_COLOR3UINT8: &'static str = r#"
		local r, g, b =
			buffer.readu8(payloadBuffer, loc),
			buffer.readu8(payloadBuffer, loc + 1),
			buffer.readu8(payloadBuffer, loc + 2)
		loc += 3

		return Color3.fromRGB(r, g, b)
	"#;

/// Luau that decodes a `ColorSequence` payload.
pub const FRAGMENT_COLOR_SEQUENCE: &'static str = r#"
		local keypointsLength = nextUnsignedInteger()
		local keypoints: { ColorSequenceKeypoint } = {}

		while keypointsLength > 0 do
			local time, r, g, b =
				buffer.readf32(payloadBuffer, loc),
				buffer.readf32(payloadBuffer, loc + 4),
				buffer.readf32(payloadBuffer, loc + 8),
				buffer.readf32(payloadBuffer, loc + 12)

			table.insert(keypoints, ColorSequenceKeypoint.new(time, Color3.new(r, g, b)))

			loc += 16
			keypointsLength -= 1
		end

		return ColorSequence.new(keypoints)
	"#;

/// Luau that decodes a `Enum` payload.
pub const FRAGMENT_ENUM: &'static str = r#"
		return nextUnsignedInteger()
	"#;

/// Luau that decodes a `Faces` payload.
pub const FRAGMENT_FACES: &'static str = r#"
		local byte = buffer.readu8(payloadBuffer, loc)
		loc += 1
		-- bitflags
		-- const RIGHT = 1;
		-- const TOP = 2;
		-- const BACK = 4;
		-- const LEFT = 8;
		-- const BOTTOM = 16;
		-- const FRONT = 32;
		local right = if bit32.extract(byte, 0, 1) == 1 then Enum.NormalId.Right else nil
		local top = if bit32.extract(byte, 1, 1) == 1 then Enum.NormalId.Top else nil
		local back = if bit32.extract(byte, 2, 1) == 1 then Enum.NormalId.Back else nil
		local left = if bit32.extract(byte, 3, 1) == 1 then Enum.NormalId.Left else nil
		local bottom = if bit32.extract(byte, 4, 1) == 1 then Enum.NormalId.Bottom else nil
		local front = if bit32.extract(byte, 5, 1) == 1 then Enum.NormalId.Front else nil

		return Faces.new(right, top, back, left, bottom, front)
	"#;

/// Luau that decodes a `Float32` payload.
pub const FRAGMENT_FLOAT32: &'static str = r#"
		local float = buffer.readf32(payloadBuffer, loc)
		loc += 4
		return float
	"#;

/// Luau that decodes a `Float64` payload.
pub const FRAGMENT_FLOAT64: &'static str = r#"
		local float = buffer.readf64(payloadBuffer, loc)
		loc += 8
		return float
	"#;

/// Luau that decodes a `Int32` payload.
pub const FRAGMENT_INT32: &'static str = r#"
		local int = buffer.readi32(payloadBuffer, loc)
		loc += 4
		return int
	"#;

/// Luau that decodes a `MaterialColors` payload.
pub const FRAGMENT_MATERIAL_COLORS: &'static str = r#"
		-- SKIP: Terrain.MaterialColors is not writable by scripts + we could use :SetMaterialColor(), but theres no reason to support that
		loc += 69
	"#;

/// Luau that decodes a `NumberRange` payload.
pub const FRAGMENT_NUMBER_RANGE: &'static str = r#"
		local min, max = buffer.readf32(payloadBuffer, loc), buffer.readf32(payloadBuffer, loc + 4)
		loc += 8

		return NumberRange.new(min, max)
	"#;

/// Luau that decodes a `NumberSequence` payload.
pub const FRAGMENT_NUMBER_SEQUENCE: &'static str = r#"
		local numberSequenceLength = nextUnsignedInteger()
		local keypoints: { NumberSequenceKeypoint } = {}

		while numberSequenceLength > 0 do
			local envelope, time, value =
				buffer.readf32(payloadBuffer, loc),
				buffer.readf32(payloadBuffer, loc + 4),
				buffer.readf32(payloadBuffer, loc + 8)
			loc += 12

			table.insert(keypoints, NumberSequenceKeypoint.new(time, value, envelope))

			numberSequenceLength -= 1
		end

		return NumberSequence.new(keypoints)
	"#;

/// Luau that decodes a `Nil` payload.
pub const FRAGMENT_NIL: &'static str = r#"
		return nil
	"#;

/// Luau that decodes a `DefaultPhysicalProperties` payload.
pub const FRAGMENT_DEFAULT_PHYSICAL_PROPERTIES: &'static str = r#"
		-- SKIP: DefaultPhysicalProperties does not translate to Luau without a material
		return nil
	"#;

/// Luau that decodes a `CustomPhysicalProperties` payload.
pub const FRAGMENT_CUSTOM_PHYSICAL_PROPERTIES: &'static str = r#"
		local density, elasticity, elasticityWeight, friction, frictionWeight =
			buffer.readf32(payloadBuffer, loc),
			buffer.readf32(payloadBuffer, loc + 4),
			buffer.readf32(payloadBuffer, loc + 8),
			buffer.readf32(payloadBuffer, loc + 12),
			buffer.readf32(payloadBuffer, loc + 16)

		loc += 20
		return PhysicalProperties.new(density, friction, elasticity, frictionWeight, elasticityWeight)
	"#;

/// Luau that decodes a `Ray` payload.
pub const FRAGMENT_RAY: &'static str = r#"
		local directionX, directionY, directionZ, originX, originY, originZ =
			buffer.readf32(payloadBuffer, loc),
			buffer.readf32(payloadBuffer, loc + 4),
			buffer.readf32(payloadBuffer, loc + 8),
			buffer.readf32(payloadBuffer, loc + 12),
			buffer.readf32(payloadBuffer, loc + 16),
			buffer.readf32(payloadBuffer, loc + 20)

		loc += 24

		return Ray.new(Vector3.new(originX, originY, originZ), Vector3.new(directionX, directionY, directionZ))
	"#;

/// Luau that decodes a `Rect` payload.
pub const FRAGMENT_RECT: &'static str = r#"
		local minX, minY, maxX, maxY =
			buffer.readf32(payloadBuffer, loc),
			buffer.readf32(payloadBuffer, loc + 4),
			buffer.readf32(payloadBuffer, loc + 8),
			buffer.readf32(payloadBuffer, loc + 12)

		loc += 16

		return Rect.new(minX, minY, maxX, maxY)
	"#;

/// Luau that decodes a `Ref` payload.
pub const FRAGMENT_REF: &'static str = r#"
		return nextUnsignedInteger()
	"#;

/// Luau that decodes a `Region3` payload.
pub const FRAGMENT_REGION3: &'static str = r#"
		-- We cannot test this: there are no properties to test this for.
		local minX, minY, minZ, maxX, maxY, maxZ =
			buffer.readf32(payloadBuffer, loc),
			buffer.readf32(payloadBuffer, loc + 4),
			buffer.readf32(payloadBuffer, loc + 8),
			buffer.readf32(payloadBuffer, loc + 12),
			buffer.readf32(payloadBuffer, loc + 16),
			buffer.readf32(payloadBuffer, loc + 20)

		loc += 24

		return Region3.new(Vector3.new(minX, minY, minZ), Vector3.new(maxX, maxY, maxZ))
	"#;

/// Luau that decodes a `Region3int16` payload.
pub const FRAGMENT_REGION3INT16: &'static str = r#"
		-- Tests cannot be implemented for the same reason as Region3
		local minX, minY, minZ, maxX, maxY, maxZ =
			buffer.readi16(payloadBuffer, loc),
			buffer.readi16(payloadBuffer, loc + 2),
			buffer.readi16(payloadBuffer, loc + 4),
			buffer.readi16(payloadBuffer, loc + 6),
			buffer.readi16(payloadBuffer, loc + 8),
			buffer.readi16(payloadBuffer, loc + 10)

		loc += 12
		return Region3int16.new(Vector3int16.new(minX, minY, minZ), Vector3int16.new(maxX, maxY, maxZ))
	"#;

/// Luau that decodes a `SecurityCapabilities` payload.
pub const FRAGMENT_SECURITY_CAPABILITIES: &'static str = r#"
		-- SKIP: SecurityCapabilities is not writable in scripts
		loc += 8
	"#;

/// Luau that decodes a `BinaryString` payload.
pub const FRAGMENT_BINARY_STRING: &'static str = r#"
		local stringLength = nextUnsignedInteger()
		loc += stringLength
		return buffer.readstring(payloadBuffer, loc - stringLength, stringLength)
	"#;

/// Luau that decodes a `Tags` payload.
pub const FRAGMENT_TAGS: &'static str = r#"
		-- length of encoded array
		local tagsLength = nextUnsignedInteger()
		local tags = {}

		while tagsLength > 0 do
			local tag = nextNullstring()
			table.insert(tags, tag)

			tagsLength -= 1
		end

		return tags
	"#;

/// Luau that decodes a `UDim` payload.
pub const FRAGMENT_UDIM: &'static str = r#"
		local offset, scale = buffer.readi32(payloadBuffer, loc), buffer.readf32(payloadBuffer, loc + 4)
		loc += 8

		return UDim.new(scale, offset)
	"#;

/// Luau that decodes a `UDim2` payload.
pub const FRAGMENT_UDIM2: &'static str = r#"
		local xOffset, yOffset, xScale, yScale =
			buffer.readi32(payloadBuffer, loc),
			buffer.readi32(payloadBuffer, loc + 4),
			buffer.readf32(payloadBuffer, loc + 8),
			buffer.readf32(payloadBuffer, loc + 12)

		loc += 16

		return UDim2.new(xScale, xOffset, yScale, yOffset)
	"#;

/// Luau that decodes a `Vector2` payload.
pub const FRAGMENT_VECTOR2: &'static str = r#"
		local x, y = buffer.readf32(payloadBuffer, loc), buffer.readf32(payloadBuffer, loc + 4)
		loc += 8

		return Vector2.new(x, y)
	"#;

/// Luau that decodes a `Vector2int16` payload.
pub const FRAGMENT_VECTOR2INT16: &'static str = r#"
		local x, y = buffer.readi16(payloadBuffer, loc), buffer.readi16(payloadBuffer, loc + 2)
		loc += 4

		return Vector2int16.new(x, y)
	"#;

/// Luau that decodes a `Vector3` payload.
pub const FRAGMENT_VECTOR3: &'static str = r#"
		local x, y, z =
			buffer.readf32(payloadBuffer, loc),
			buffer.readf32(payloadBuffer, loc + 4),
			buffer.readf32(payloadBuffer, loc + 8)
		loc += 12

		return Vector3.new(x, y, z)
	"#;

/// Luau that decodes a `Vector3int16` payload.
pub const FRAGMENT_VECTOR3INT16: &'static str = r#"
		local x, y, z =
			buffer.readi16(payloadBuffer, loc),
			buffer.readi16(payloadBuffer, loc + 2),
			buffer.readi16(payloadBuffer, loc + 4)
		loc += 6

		return Vector3int16.new(x, y, z)
	"#;

/// Luau that decodes a `Font` payload.
pub const FRAGMENT_FONT: &'static str = r#"
		local family = nextNullstring()
		local weight = buffer.readu16(payloadBuffer, loc)
		loc += 2
		local style = buffer.readu8(payloadBuffer, loc)
		loc += 1

		local weightEnum: Enum.FontWeight

		if weight == 100 then
			weightEnum = Enum.FontWeight.Thin
		elseif weight == 200 then
			weightEnum = Enum.FontWeight.ExtraLight
		elseif weight == 300 then
			weightEnum = Enum.FontWeight.Light
		elseif weight == 400 then
			weightEnum = Enum.FontWeight.Regular
		elseif weight == 500 then
			weightEnum = Enum.FontWeight.Medium
		elseif weight == 600 then
			weightEnum = Enum.FontWeight.SemiBold
		elseif weight == 700 then
			weightEnum = Enum.FontWeight.Bold
		elseif weight == 800 then
			weightEnum = Enum.FontWeight.ExtraBold
		elseif weight == 900 then
			weightEnum = Enum.FontWeight.Heavy
		else
			error(`font weight {weight} is not supported or is invalid`)
		end

		local styleEnum: Enum.FontStyle

		if style == 0 then
			styleEnum = Enum.FontStyle.Normal
		elseif style == 1 then
			styleEnum = Enum.FontStyle.Italic
		else
			error(`font style {style} is not supported or is invalid`)
		end

		return Font.new(family, weightEnum, styleEnum)
	"#;

/// Luau that decodes a `ContentNone` payload.
pub const FRAGMENT_CONTENT_NONE: &'static str = r#"return Content.none"#;

/// Luau that decodes a `ContentObject` payload.
pub const FRAGMENT_CONTENT_OBJECT: &'static str = r#"return nextUnsignedInteger()"#;

/// Luau that decodes a `ContentUri` payload.
pub const FRAGMENT_CONTENT_URI: &'static str = r#"return Content.fromUri(nextNullstring())"#;

impl TypeId {
    /// The tag byte of this kind.
    pub open spec fn tag(self) -> u8 {
        match self {
            TypeId::String => 0u8,
            TypeId::Attributes => 1u8,
            TypeId::Axes => 2u8,
            TypeId::Bool => 3u8,
            TypeId::BrickColor => 4u8,
            TypeId::CFrame => 5u8,
            TypeId::Color3 => 6u8,
            TypeId::Color3uint8 => 7u8,
            TypeId::ColorSequence => 8u8,
            TypeId::Enum => 9u8,
            TypeId::Faces => 10u8,
            TypeId::Float32 => 11u8,
            TypeId::Float64 => 12u8,
            TypeId::Int32 => 13u8,
            TypeId::MaterialColors => 14u8,
            TypeId::NumberRange => 15u8,
            TypeId::NumberSequence => 16u8,
            TypeId::Nil => 17u8,
            TypeId::DefaultPhysicalProperties => 18u8,
            TypeId::CustomPhysicalProperties => 19u8,
            TypeId::Ray => 20u8,
            TypeId::Rect => 21u8,
            TypeId::Ref => 22u8,
            TypeId::Region3 => 23u8,
            TypeId::Region3int16 => 24u8,
            TypeId::SecurityCapabilities => 25u8,
            TypeId::BinaryString => 26u8,
            TypeId::Tags => 27u8,
            TypeId::UDim => 28u8,
            TypeId::UDim2 => 29u8,
            TypeId::Vector2 => 30u8,
            TypeId::Vector2int16 => 31u8,
            TypeId::Vector3 => 32u8,
            TypeId::Vector3int16 => 33u8,
            TypeId::Font => 34u8,
            TypeId::ContentNone => 35u8,
            TypeId::ContentObject => 36u8,
            TypeId::ContentUri => 37u8,
        }
    }

    /// The tag byte of this kind.
    pub fn as_u8(&self) -> (r: u8)
        ensures
            r == self.tag(),
    {
        match self {
            TypeId::String => 0,
            TypeId::Attributes => 1,
            TypeId::Axes => 2,
            TypeId::Bool => 3,
            TypeId::BrickColor => 4,
            TypeId::CFrame => 5,
            TypeId::Color3 => 6,
            TypeId::Color3uint8 => 7,
            TypeId::ColorSequence => 8,
            TypeId::Enum => 9,
            TypeId::Faces => 10,
            TypeId::Float32 => 11,
            TypeId::Float64 => 12,
            TypeId::Int32 => 13,
            TypeId::MaterialColors => 14,
            TypeId::NumberRange => 15,
            TypeId::NumberSequence => 16,
            TypeId::Nil => 17,
            TypeId::DefaultPhysicalProperties => 18,
            TypeId::CustomPhysicalProperties => 19,
            TypeId::Ray => 20,
            TypeId::Rect => 21,
            TypeId::Ref => 22,
            TypeId::Region3 => 23,
            TypeId::Region3int16 => 24,
            TypeId::SecurityCapabilities => 25,
            TypeId::BinaryString => 26,
            TypeId::Tags => 27,
            TypeId::UDim => 28,
            TypeId::UDim2 => 29,
            TypeId::Vector2 => 30,
            TypeId::Vector2int16 => 31,
            TypeId::Vector3 => 32,
            TypeId::Vector3int16 => 33,
            TypeId::Font => 34,
            TypeId::ContentNone => 35,
            TypeId::ContentObject => 36,
            TypeId::ContentUri => 37,
        }
    }

    /// The kind with tag `k`, if there is one.
    pub open spec fn from_tag(k: u8) -> Option<TypeId> {
        if k == 0 {
            Some(TypeId::String)
        } else if k == 1 {
            Some(TypeId::Attributes)
        } else if k == 2 {
            Some(TypeId::Axes)
        } else if k == 3 {
            Some(TypeId::Bool)
        } else if k == 4 {
            Some(TypeId::BrickColor)
        } else if k == 5 {
            Some(TypeId::CFrame)
        } else if k == 6 {
            Some(TypeId::Color3)
        } else if k == 7 {
            Some(TypeId::Color3uint8)
        } else if k == 8 {
            Some(TypeId::ColorSequence)
        } else if k == 9 {
            Some(TypeId::Enum)
        } else if k == 10 {
            Some(TypeId::Faces)
        } else if k == 11 {
            Some(TypeId::Float32)
        } else if k == 12 {
            Some(TypeId::Float64)
        } else if k == 13 {
            Some(TypeId::Int32)
        } else if k == 14 {
            Some(TypeId::MaterialColors)
        } else if k == 15 {
            Some(TypeId::NumberRange)
        } else if k == 16 {
            Some(TypeId::NumberSequence)
        } else if k == 17 {
            Some(TypeId::Nil)
        } else if k == 18 {
            Some(TypeId::DefaultPhysicalProperties)
        } else if k == 19 {
            Some(TypeId::CustomPhysicalProperties)
        } else if k == 20 {
            Some(TypeId::Ray)
        } else if k == 21 {
            Some(TypeId::Rect)
        } else if k == 22 {
            Some(TypeId::Ref)
        } else if k == 23 {
            Some(TypeId::Region3)
        } else if k == 24 {
            Some(TypeId::Region3int16)
        } else if k == 25 {
            Some(TypeId::SecurityCapabilities)
        } else if k == 26 {
            Some(TypeId::BinaryString)
        } else if k == 27 {
            Some(TypeId::Tags)
        } else if k == 28 {
            Some(TypeId::UDim)
        } else if k == 29 {
            Some(TypeId::UDim2)
        } else if k == 30 {
            Some(TypeId::Vector2)
        } else if k == 31 {
            Some(TypeId::Vector2int16)
        } else if k == 32 {
            Some(TypeId::Vector3)
        } else if k == 33 {
            Some(TypeId::Vector3int16)
        } else if k == 34 {
            Some(TypeId::Font)
        } else if k == 35 {
            Some(TypeId::ContentNone)
        } else if k == 36 {
            Some(TypeId::ContentObject)
        } else if k == 37 {
            Some(TypeId::ContentUri)
        } else {
            None
        }
    }

    /// The kind with tag `k`, if there is one.
    pub fn from_u8(k: u8) -> (r: Option<TypeId>)
        ensures
            r == TypeId::from_tag(k),
    {
        match k {
            0 => Some(TypeId::String),
            1 => Some(TypeId::Attributes),
            2 => Some(TypeId::Axes),
            3 => Some(TypeId::Bool),
            4 => Some(TypeId::BrickColor),
            5 => Some(TypeId::CFrame),
            6 => Some(TypeId::Color3),
            7 => Some(TypeId::Color3uint8),
            8 => Some(TypeId::ColorSequence),
            9 => Some(TypeId::Enum),
            10 => Some(TypeId::Faces),
            11 => Some(TypeId::Float32),
            12 => Some(TypeId::Float64),
            13 => Some(TypeId::Int32),
            14 => Some(TypeId::MaterialColors),
            15 => Some(TypeId::NumberRange),
            16 => Some(TypeId::NumberSequence),
            17 => Some(TypeId::Nil),
            18 => Some(TypeId::DefaultPhysicalProperties),
            19 => Some(TypeId::CustomPhysicalProperties),
            20 => Some(TypeId::Ray),
            21 => Some(TypeId::Rect),
            22 => Some(TypeId::Ref),
            23 => Some(TypeId::Region3),
            24 => Some(TypeId::Region3int16),
            25 => Some(TypeId::SecurityCapabilities),
            26 => Some(TypeId::BinaryString),
            27 => Some(TypeId::Tags),
            28 => Some(TypeId::UDim),
            29 => Some(TypeId::UDim2),
            30 => Some(TypeId::Vector2),
            31 => Some(TypeId::Vector2int16),
            32 => Some(TypeId::Vector3),
            33 => Some(TypeId::Vector3int16),
            34 => Some(TypeId::Font),
            35 => Some(TypeId::ContentNone),
            36 => Some(TypeId::ContentObject),
            37 => Some(TypeId::ContentUri),
            _ => None,
        }
    }

    /// The symbolic name of this kind.
    pub open spec fn spec_name(self) -> &'static str {
        match self {
            TypeId::String => "String",
            TypeId::Attributes => "Attributes",
            TypeId::Axes => "Axes",
            TypeId::Bool => "Bool",
            TypeId::BrickColor => "BrickColor",
            TypeId::CFrame => "CFrame",
            TypeId::Color3 => "Color3",
            TypeId::Color3uint8 => "Color3uint8",
            TypeId::ColorSequence => "ColorSequence",
            TypeId::Enum => "Enum",
            TypeId::Faces => "Faces",
            TypeId::Float32 => "Float32",
            TypeId::Float64 => "Float64",
            TypeId::Int32 => "Int32",
            TypeId::MaterialColors => "MaterialColors",
            TypeId::NumberRange => "NumberRange",
            TypeId::NumberSequence => "NumberSequence",
            TypeId::Nil => "None",
            TypeId::DefaultPhysicalProperties => "DefaultPhysicalProperties",
            TypeId::CustomPhysicalProperties => "CustomPhysicalProperties",
            TypeId::Ray => "Ray",
            TypeId::Rect => "Rect",
            TypeId::Ref => "Ref",
            TypeId::Region3 => "Region3",
            TypeId::Region3int16 => "Region3int16",
            TypeId::SecurityCapabilities => "SecurityCapabilities",
            TypeId::BinaryString => "BinaryString",
            TypeId::Tags => "Tags",
            TypeId::UDim => "UDim",
            TypeId::UDim2 => "UDim2",
            TypeId::Vector2 => "Vector2",
            TypeId::Vector2int16 => "Vector2int16",
            TypeId::Vector3 => "Vector3",
            TypeId::Vector3int16 => "Vector3int16",
            TypeId::Font => "Font",
            TypeId::ContentNone => "ContentNone",
            TypeId::ContentObject => "ContentObject",
            TypeId::ContentUri => "ContentUri",
        }
    }

    /// The tag byte of this kind in decimal.
    pub open spec fn tag_text(self) -> &'static str {
        match self {
            TypeId::String => "0",
            TypeId::Attributes => "1",
            TypeId::Axes => "2",
            TypeId::Bool => "3",
            TypeId::BrickColor => "4",
            TypeId::CFrame => "5",
            TypeId::Color3 => "6",
            TypeId::Color3uint8 => "7",
            TypeId::ColorSequence => "8",
            TypeId::Enum => "9",
            TypeId::Faces => "10",
            TypeId::Float32 => "11",
            TypeId::Float64 => "12",
            TypeId::Int32 => "13",
            TypeId::MaterialColors => "14",
            TypeId::NumberRange => "15",
            TypeId::NumberSequence => "16",
            TypeId::Nil => "17",
            TypeId::DefaultPhysicalProperties => "18",
            TypeId::CustomPhysicalProperties => "19",
            TypeId::Ray => "20",
            TypeId::Rect => "21",
            TypeId::Ref => "22",
            TypeId::Region3 => "23",
            TypeId::Region3int16 => "24",
            TypeId::SecurityCapabilities => "25",
            TypeId::BinaryString => "26",
            TypeId::Tags => "27",
            TypeId::UDim => "28",
            TypeId::UDim2 => "29",
            TypeId::Vector2 => "30",
            TypeId::Vector2int16 => "31",
            TypeId::Vector3 => "32",
            TypeId::Vector3int16 => "33",
            TypeId::Font => "34",
            TypeId::ContentNone => "35",
            TypeId::ContentObject => "36",
            TypeId::ContentUri => "37",
        }
    }

    /// The symbolic name of this kind.
    pub fn name(&self) -> (r: &'static str)
        ensures
            r == self.spec_name(),
    {
        match self {
            TypeId::String => "String",
            TypeId::Attributes => "Attributes",
            TypeId::Axes => "Axes",
            TypeId::Bool => "Bool",
            TypeId::BrickColor => "BrickColor",
            TypeId::CFrame => "CFrame",
            TypeId::Color3 => "Color3",
            TypeId::Color3uint8 => "Color3uint8",
            TypeId::ColorSequence => "ColorSequence",
            TypeId::Enum => "Enum",
            TypeId::Faces => "Faces",
            TypeId::Float32 => "Float32",
            TypeId::Float64 => "Float64",
            TypeId::Int32 => "Int32",
            TypeId::MaterialColors => "MaterialColors",
            TypeId::NumberRange => "NumberRange",
            TypeId::NumberSequence => "NumberSequence",
            TypeId::Nil => "None",
            TypeId::DefaultPhysicalProperties => "DefaultPhysicalProperties",
            TypeId::CustomPhysicalProperties => "CustomPhysicalProperties",
            TypeId::Ray => "Ray",
            TypeId::Rect => "Rect",
            TypeId::Ref => "Ref",
            TypeId::Region3 => "Region3",
            TypeId::Region3int16 => "Region3int16",
            TypeId::SecurityCapabilities => "SecurityCapabilities",
            TypeId::BinaryString => "BinaryString",
            TypeId::Tags => "Tags",
            TypeId::UDim => "UDim",
            TypeId::UDim2 => "UDim2",
            TypeId::Vector2 => "Vector2",
            TypeId::Vector2int16 => "Vector2int16",
            TypeId::Vector3 => "Vector3",
            TypeId::Vector3int16 => "Vector3int16",
            TypeId::Font => "Font",
            TypeId::ContentNone => "ContentNone",
            TypeId::ContentObject => "ContentObject",
            TypeId::ContentUri => "ContentUri",
        }
    }

    /// The tag byte of this kind in decimal.
    pub fn tag_string(&self) -> (r: &'static str)
        ensures
            r == self.tag_text(),
    {
        match self {
            TypeId::String => "0",
            TypeId::Attributes => "1",
            TypeId::Axes => "2",
            TypeId::Bool => "3",
            TypeId::BrickColor => "4",
            TypeId::CFrame => "5",
            TypeId::Color3 => "6",
            TypeId::Color3uint8 => "7",
            TypeId::ColorSequence => "8",
            TypeId::Enum => "9",
            TypeId::Faces => "10",
            TypeId::Float32 => "11",
            TypeId::Float64 => "12",
            TypeId::Int32 => "13",
            TypeId::MaterialColors => "14",
            TypeId::NumberRange => "15",
            TypeId::NumberSequence => "16",
            TypeId::Nil => "17",
            TypeId::DefaultPhysicalProperties => "18",
            TypeId::CustomPhysicalProperties => "19",
            TypeId::Ray => "20",
            TypeId::Rect => "21",
            TypeId::Ref => "22",
            TypeId::Region3 => "23",
            TypeId::Region3int16 => "24",
            TypeId::SecurityCapabilities => "25",
            TypeId::BinaryString => "26",
            TypeId::Tags => "27",
            TypeId::UDim => "28",
            TypeId::UDim2 => "29",
            TypeId::Vector2 => "30",
            TypeId::Vector2int16 => "31",
            TypeId::Vector3 => "32",
            TypeId::Vector3int16 => "33",
            TypeId::Font => "34",
            TypeId::ContentNone => "35",
            TypeId::ContentObject => "36",
            TypeId::ContentUri => "37",
        }
    }

    /// The Luau fragment that decodes a payload of this kind.
    pub open spec fn fragment(self) -> &'static str {
        match self {
            TypeId::String => FRAGMENT_STRING,
            TypeId::Attributes => FRAGMENT_ATTRIBUTES,
            TypeId::Axes => FRAGMENT_AXES,
            TypeId::Bool => FRAGMENT_BOOL,
            TypeId::BrickColor => FRAGMENT_BRICK_COLOR,
            TypeId::CFrame => FRAGMENT_CFRAME,
            TypeId::Color3 => FRAGMENT_COLOR3,
            TypeId::Color3uint8 => FRAGMENT_COLOR3UINT8,
            TypeId::ColorSequence => FRAGMENT_COLOR_SEQUENCE,
            TypeId::Enum => FRAGMENT_ENUM,
            TypeId::Faces => FRAGMENT_FACES,
            TypeId::Float32 => FRAGMENT_FLOAT32,
            TypeId::Float64 => FRAGMENT_FLOAT64,
            TypeId::Int32 => FRAGMENT_INT32,
            TypeId::MaterialColors => FRAGMENT_MATERIAL_COLORS,
            TypeId::NumberRange => FRAGMENT_NUMBER_RANGE,
            TypeId::NumberSequence => FRAGMENT_NUMBER_SEQUENCE,
            TypeId::Nil => FRAGMENT_NIL,
            TypeId::DefaultPhysicalProperties => FRAGMENT_DEFAULT_PHYSICAL_PROPERTIES,
            TypeId::CustomPhysicalProperties => FRAGMENT_CUSTOM_PHYSICAL_PROPERTIES,
            TypeId::Ray => FRAGMENT_RAY,
            TypeId::Rect => FRAGMENT_RECT,
            TypeId::Ref => FRAGMENT_REF,
            TypeId::Region3 => FRAGMENT_REGION3,
            TypeId::Region3int16 => FRAGMENT_REGION3INT16,
            TypeId::SecurityCapabilities => FRAGMENT_SECURITY_CAPABILITIES,
            TypeId::BinaryString => FRAGMENT_BINARY_STRING,
            TypeId::Tags => FRAGMENT_TAGS,
            TypeId::UDim => FRAGMENT_UDIM,
            TypeId::UDim2 => FRAGMENT_UDIM2,
            TypeId::Vector2 => FRAGMENT_VECTOR2,
            TypeId::Vector2int16 => FRAGMENT_VECTOR2INT16,
            TypeId::Vector3 => FRAGMENT_VECTOR3,
            TypeId::Vector3int16 => FRAGMENT_VECTOR3INT16,
            TypeId::Font => FRAGMENT_FONT,
            TypeId::ContentNone => FRAGMENT_CONTENT_NONE,
            TypeId::ContentObject => FRAGMENT_CONTENT_OBJECT,
            TypeId::ContentUri => FRAGMENT_CONTENT_URI,
        }
    }

    /// The Luau fragment that decodes a payload of this kind.
    pub fn decode_fragment(&self) -> (r: &'static str)
        ensures
            r == self.fragment(),
    {
        match self {
            TypeId::String => FRAGMENT_STRING,
            TypeId::Attributes => FRAGMENT_ATTRIBUTES,
            TypeId::Axes => FRAGMENT_AXES,
            TypeId::Bool => FRAGMENT_BOOL,
            TypeId::BrickColor => FRAGMENT_BRICK_COLOR,
            TypeId::CFrame => FRAGMENT_CFRAME,
            TypeId::Color3 => FRAGMENT_COLOR3,
            TypeId::Color3uint8 => FRAGMENT_COLOR3UINT8,
            TypeId::ColorSequence => FRAGMENT_COLOR_SEQUENCE,
            TypeId::Enum => FRAGMENT_ENUM,
            TypeId::Faces => FRAGMENT_FACES,
            TypeId::Float32 => FRAGMENT_FLOAT32,
            TypeId::Float64 => FRAGMENT_FLOAT64,
            TypeId::Int32 => FRAGMENT_INT32,
            TypeId::MaterialColors => FRAGMENT_MATERIAL_COLORS,
            TypeId::NumberRange => FRAGMENT_NUMBER_RANGE,
            TypeId::NumberSequence => FRAGMENT_NUMBER_SEQUENCE,
            TypeId::Nil => FRAGMENT_NIL,
            TypeId::DefaultPhysicalProperties => FRAGMENT_DEFAULT_PHYSICAL_PROPERTIES,
            TypeId::CustomPhysicalProperties => FRAGMENT_CUSTOM_PHYSICAL_PROPERTIES,
            TypeId::Ray => FRAGMENT_RAY,
            TypeId::Rect => FRAGMENT_RECT,
            TypeId::Ref => FRAGMENT_REF,
            TypeId::Region3 => FRAGMENT_REGION3,
            TypeId::Region3int16 => FRAGMENT_REGION3INT16,
            TypeId::SecurityCapabilities => FRAGMENT_SECURITY_CAPABILITIES,
            TypeId::BinaryString => FRAGMENT_BINARY_STRING,
            TypeId::Tags => FRAGMENT_TAGS,
            TypeId::UDim => FRAGMENT_UDIM,
            TypeId::UDim2 => FRAGMENT_UDIM2,
            TypeId::Vector2 => FRAGMENT_VECTOR2,
            TypeId::Vector2int16 => FRAGMENT_VECTOR2INT16,
            TypeId::Vector3 => FRAGMENT_VECTOR3,
            TypeId::Vector3int16 => FRAGMENT_VECTOR3INT16,
            TypeId::Font => FRAGMENT_FONT,
            TypeId::ContentNone => FRAGMENT_CONTENT_NONE,
            TypeId::ContentObject => FRAGMENT_CONTENT_OBJECT,
            TypeId::ContentUri => FRAGMENT_CONTENT_URI,
        }
    }

    /// The payload layout that this kind's decode fragment reads.
    pub open spec fn layout(self) -> Layout {
        match self {
            TypeId::String => Layout::VarBytes,
            TypeId::Attributes => Layout::CountedEntries,
            TypeId::Axes => Layout::Fixed(1),
            TypeId::Bool => Layout::Fixed(1),
            TypeId::BrickColor => Layout::NullString,
            TypeId::CFrame => Layout::Rotation,
            TypeId::Color3 => Layout::Fixed(12),
            TypeId::Color3uint8 => Layout::Fixed(3),
            TypeId::ColorSequence => Layout::Counted(16),
            TypeId::Enum => Layout::Varint,
            TypeId::Faces => Layout::Fixed(1),
            TypeId::Float32 => Layout::Fixed(4),
            TypeId::Float64 => Layout::Fixed(8),
            TypeId::Int32 => Layout::Fixed(4),
            TypeId::MaterialColors => Layout::Fixed(69),
            TypeId::NumberRange => Layout::Fixed(8),
            TypeId::NumberSequence => Layout::Counted(12),
            TypeId::Nil => Layout::Fixed(0),
            TypeId::DefaultPhysicalProperties => Layout::Fixed(0),
            TypeId::CustomPhysicalProperties => Layout::Fixed(20),
            TypeId::Ray => Layout::Fixed(24),
            TypeId::Rect => Layout::Fixed(16),
            TypeId::Ref => Layout::Varint,
            TypeId::Region3 => Layout::Fixed(24),
            TypeId::Region3int16 => Layout::Fixed(12),
            TypeId::SecurityCapabilities => Layout::Fixed(8),
            TypeId::BinaryString => Layout::VarBytes,
            TypeId::Tags => Layout::CountedNullStrings,
            TypeId::UDim => Layout::Fixed(8),
            TypeId::UDim2 => Layout::Fixed(16),
            TypeId::Vector2 => Layout::Fixed(8),
            TypeId::Vector2int16 => Layout::Fixed(4),
            TypeId::Vector3 => Layout::Fixed(12),
            TypeId::Vector3int16 => Layout::Fixed(6),
            TypeId::Font => Layout::NullStringThen(3),
            TypeId::ContentNone => Layout::Fixed(0),
            TypeId::ContentObject => Layout::Varint,
            TypeId::ContentUri => Layout::NullString,
        }
    }
}

/// Every kind has exactly one tag, and every tag below [`TYPE_ID_COUNT`] names a kind.
pub proof fn lemma_tag_bijective()
    ensures
        forall|t: TypeId| #[trigger] TypeId::from_tag(t.tag()) == Some(t) && t.tag() < TYPE_ID_COUNT,
        forall|k: u8| k < TYPE_ID_COUNT <==> #[trigger] TypeId::from_tag(k) is Some,
        forall|k: u8| #[trigger] TypeId::from_tag(k) matches Some(t) ==> t.tag() == k,
{
}

/// A set of kinds, one bit per tag.
#[derive(Copy, Clone, Debug)]
pub struct TypeIdSet {
    bits: u64,
}

/// Setting bit `k` of `b` sets that bit and leaves the others as they were.
proof fn lemma_bit_insert(b: u64, k: u64, j: u64)
    requires
        k < 64,
        j < 64,
    ensures
        ((b | (1u64 << k)) >> j) & 1 == 1 <==> ((b >> j) & 1 == 1 || j == k),
{
    assert(((b | (1u64 << k)) >> j) & 1 == 1 <==> ((b >> j) & 1 == 1 || j == k)) by (bit_vector)
        requires
            k < 64,
            j < 64,
    ;
}

impl TypeIdSet {
    /// Whether the bit of `t` is set.
    closed spec fn has(self, t: TypeId) -> bool {
        (self.bits >> (t.tag() as u64)) & 1 == 1
    }

    /// The kinds in the set.
    pub closed spec fn view(self) -> Set<TypeId> {
        Set::new(|t: TypeId| self.has(t))
    }

    /// The empty set.
    pub fn new() -> (r: TypeIdSet)
        ensures
            r.view() == Set::<TypeId>::empty(),
    {
        let r = TypeIdSet { bits: 0 };
        assert forall|t: TypeId| !r.has(t) by {
            let k = t.tag() as u64;
            assert((0u64 >> k) & 1 == 0) by (bit_vector);
        }
        assert(r.view() =~= Set::<TypeId>::empty());
        r
    }

    /// The set of every kind.
    pub fn all() -> (r: TypeIdSet)
        ensures
            r.view() == Set::<TypeId>::full(),
    {
        let r = TypeIdSet { bits: 0x3f_ffff_ffff };
        assert forall|t: TypeId| r.has(t) by {
            let k = t.tag() as u64;
            assert(k < 38 ==> (0x3f_ffff_ffffu64 >> k) & 1 == 1) by (bit_vector);
        }
        assert(r.view() =~= Set::<TypeId>::full());
        r
    }

    /// Whether `t` is in the set.
    pub fn contains(&self, t: TypeId) -> (r: bool)
        ensures
            r == self.view().contains(t),
    {
        (self.bits >> (t.as_u8() as u64)) & 1 == 1
    }

    /// Adds `t` to the set.
    pub fn insert(&mut self, t: TypeId)
        ensures
            final(self).view() == old(self).view().insert(t),
    {
        let ghost before = *self;
        let k = t.as_u8() as u64;
        self.bits = self.bits | (1u64 << k);
        proof {
            lemma_tag_bijective();
            assert forall|u: TypeId| #[trigger] self.view().contains(u) <==> (before.view().contains(u) || u == t) by {
                lemma_bit_insert(before.bits, k, u.tag() as u64);
                if u.tag() == t.tag() {
                    assert(TypeId::from_tag(u.tag()) == Some(u));
                }
            }
            assert(self.view() =~= before.view().insert(t));
        }
    }
}

/// One row of the `TYPE_ID` table: `Name = tag,`.
pub open spec fn type_id_row(t: TypeId) -> Seq<char> {
    t.spec_name()@ + " = "@ + t.tag_text()@ + ","@
}

/// One entry of the `VARIANT_DECODER` table: the kind's decode fragment
/// wrapped in a function keyed by the kind's `TYPE_ID` entry.
pub open spec fn variant_decoder_row(t: TypeId) -> Seq<char> {
    "[TYPE_ID."@ + t.spec_name()@ + "] = function()\n"@ + t.fragment()@ + "\nend,\n"@
}

/// The rows of the kinds in `ids` whose tag is below `k`, in tag order.
pub open spec fn type_id_rows(ids: Set<TypeId>, k: nat) -> Seq<char>
    decreases k,
{
    if k == 0 {
        seq![]
    } else {
        let prev = type_id_rows(ids, (k - 1) as nat);
        match TypeId::from_tag((k - 1) as u8) {
            Some(t) => if ids.contains(t) {
                prev + type_id_row(t)
            } else {
                prev
            },
            None => prev,
        }
    }
}

/// The decoder entries of the kinds in `ids` whose tag is below `k`, in tag order.
pub open spec fn variant_decoder_rows(ids: Set<TypeId>, k: nat) -> Seq<char>
    decreases k,
{
    if k == 0 {
        seq![]
    } else {
        let prev = variant_decoder_rows(ids, (k - 1) as nat);
        match TypeId::from_tag((k - 1) as u8) {
            Some(t) => if ids.contains(t) {
                prev + variant_decoder_row(t)
            } else {
                prev
            },
            None => prev,
        }
    }
}

/// The Luau `TYPE_ID` table for the kinds in `ids`.
pub open spec fn type_id_table(ids: Set<TypeId>) -> Seq<char> {
    "local TYPE_ID = table.freeze({\n"@ + type_id_rows(ids, TYPE_ID_COUNT as nat) + "\n})"@
}

/// The Luau `VARIANT_DECODER` table for the kinds in `ids`.
pub open spec fn variant_decoder_table(ids: Set<TypeId>) -> Seq<char> {
    "-- @generated\nVARIANT_DECODER = table.freeze({\n"@ + variant_decoder_rows(ids, TYPE_ID_COUNT as nat)
        + "\n})"@
}

/// Emits the `TYPE_ID` table for the kinds in `ids`, in tag order.
pub fn get_luau_for_type_ids(ids: &TypeIdSet) -> (r: String)
    ensures
        r@ == type_id_table(ids.view()),
{
    let mut output = String::from_str("local TYPE_ID = table.freeze({\n");
    let mut k: u8 = 0;
    while k < TYPE_ID_COUNT
        invariant
            k <= TYPE_ID_COUNT,
            output@ == "local TYPE_ID = table.freeze({\n"@ + type_id_rows(ids.view(), k as nat),
        decreases TYPE_ID_COUNT - k,
    {
        if let Some(t) = TypeId::from_u8(k) {
            if ids.contains(t) {
                output.append(t.name());
                output.append(" = ");
                output.append(t.tag_string());
                output.append(",");
            }
        }
        k += 1;
    }
    output.append("\n})");
    output
}

/// Emits the `VARIANT_DECODER` table for the kinds in `ids`, in tag order.
pub fn get_luau_variant_decoder_for_ids(ids: &TypeIdSet) -> (r: String)
    ensures
        r@ == variant_decoder_table(ids.view()),
{
    let mut output = String::from_str("-- @generated\nVARIANT_DECODER = table.freeze({\n");
    let mut k: u8 = 0;
    while k < TYPE_ID_COUNT
        invariant
            k <= TYPE_ID_COUNT,
            output@ == "-- @generated\nVARIANT_DECODER = table.freeze({\n"@ + variant_decoder_rows(ids.view(), k as nat),
        decreases TYPE_ID_COUNT - k,
    {
        if let Some(t) = TypeId::from_u8(k) {
            if ids.contains(t) {
                output.append("[TYPE_ID.");
                output.append(t.name());
                output.append("] = function()\n");
                output.append(t.decode_fragment());
                output.append("\nend,\n");
            }
        }
        k += 1;
    }
    output.append("\n})");
    output
}

} // verus!
