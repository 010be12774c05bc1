//! Decoder generation: assembles Luau source that decodes exactly the kinds
//! of values a payload holds, plus the glue its scripts need.
use crate::encoder::{encode_dom_into_writer, fits, node_enc, ref_index, EncodeError, ReferentTable};
use crate::model::{Node, Value};
use crate::spec::{get_luau_for_type_ids, get_luau_variant_decoder_for_ids, type_id_table, variant_decoder_table, TypeId, TypeIdSet};
use vstd::prelude::*;
use vstd::string::StringExecFns;

verus! {

/// Flags that shape the generated decoder. Implicit flags follow from the
/// tree being encoded; explicit ones choose the target environment.
#[derive(Copy, Clone, Debug, PartialEq, Eq, Structural)]
pub struct Requirements {
    /// The flag bits, as the associated constants name them.
    pub bits: u16,
}

impl Requirements {
    /// Implicit: the payload holds a transform, so the decoder needs the
    /// axis-aligned rotation table.
    pub const CFRAME_LOOKUP_TABLE: u16 = 1;
    /// Implicit: the tree holds a `Script`.
    pub const NEW_SCRIPT_FUNCTION: u16 = 2;
    /// Implicit: the tree holds a `LocalScript`.
    pub const NEW_LOCAL_SCRIPT_FUNCTION: u16 = 4;
    /// Implicit: the tree holds a `ModuleScript`.
    pub const NEW_MODULE_SCRIPT_FUNCTION: u16 = 8;
    /// Implicit: the tree holds a `MeshPart`.
    pub const MESH_PART_SUPPORT: u16 = 16;
    /// Explicit: run in the Studio command bar.
    pub const STUDIO_SUPPORT: u16 = 32;
    /// Explicit: run where `NewScript`, `NewLocalScript` and `NewModuleScript` exist.
    pub const OPENSB_SUPPORT: u16 = 64;
    /// Explicit: run where `NewScript` and `NewLocalScript` exist but
    /// `NewModuleScript` does not; `require` is shimmed.
    pub const LEGACY_SUPPORT: u16 = 128;
    /// Explicit: splice module sources into the decoder instead of building
    /// modules at decode time.
    pub const USE_NOVEL_INLINING: u16 = 256;
    /// Explicit: end the decoder with `return decode`.
    pub const RETURN_DECODE: u16 = 512;

    /// All of `flags` are set.
    pub open spec fn has(self, flags: u16) -> bool {
        self.bits & flags == flags
    }

    /// No flag set.
    pub fn empty() -> (r: Requirements)
        ensures
            r.bits == 0,
    {
        Requirements { bits: 0 }
    }

    /// Every defined flag set.
    pub fn all() -> (r: Requirements)
        ensures
            r.bits == 1023,
    {
        Requirements { bits: 1023 }
    }

    /// Whether all of `flags` are set.
    pub fn contains(&self, flags: u16) -> (r: bool)
        ensures
            r == self.has(flags),
    {
        self.bits & flags == flags
    }

    /// Sets `flags`.
    pub fn insert(&mut self, flags: u16)
        ensures
            final(self).bits == old(self).bits | flags,
    {
        self.bits = self.bits | flags;
    }

    /// The explicit flags for the chosen target environments.
    pub fn from_environment(legacy: bool, studio: bool, opensb: bool, novel: bool) -> (r: Requirements)
        ensures
            r.bits == (if legacy {
                Requirements::LEGACY_SUPPORT
            } else {
                0
            }) + (if studio {
                Requirements::STUDIO_SUPPORT
            } else {
                0
            }) + (if opensb {
                Requirements::OPENSB_SUPPORT
            } else {
                0
            }) + (if novel {
                Requirements::USE_NOVEL_INLINING
            } else {
                0
            }),
    {
        let mut bits: u16 = 0;
        if legacy {
            bits = bits + Requirements::LEGACY_SUPPORT;
        }
        if studio {
            bits = bits + Requirements::STUDIO_SUPPORT;
        }
        if opensb {
            bits = bits + Requirements::OPENSB_SUPPORT;
        }
        if novel {
            bits = bits + Requirements::USE_NOVEL_INLINING;
        }
        Requirements { bits }
    }

    /// The flags of `self` that are not in `flags`.
    pub fn difference(&self, flags: u16) -> (r: Requirements)
        ensures
            r.bits == self.bits & !flags,
    {
        Requirements { bits: self.bits & !flags }
    }
}

/// Everything the generator needs to emit a decoder.
pub struct Options {
    /// Implicit and explicit flags.
    pub generation_requirements: Requirements,
    /// Kinds the payload holds.
    pub known_needed_type_ids: TypeIdSet,
    /// Module sources to inline, keyed by the module's referent index.
    pub module_script_sources: Vec<(usize, String)>,
    /// The referent table the payload was written with.
    pub referent_map: ReferentTable,
}

/// Luau that makes a `Script` in Studio.
pub const STUDIO_SCRIPT: &'static str = r#"(game:GetService("RunService"):IsStudio() and (function(code, parent)
		local script = Instance.new("Script")
		script.Source = code
		script.Parent = parent

		return script
	end))"#;

/// Luau that makes a `LocalScript` in Studio.
pub const STUDIO_LOCAL_SCRIPT: &'static str = r#"(game:GetService("RunService"):IsStudio() and (function(code, parent)
		local script = Instance.new("LocalScript")
		script.Source = code
		script.Parent = parent

		return script
	end))"#;

/// Luau that makes a `ModuleScript` in Studio.
pub const STUDIO_MODULE_SCRIPT: &'static str = r#"(game:GetService("RunService"):IsStudio() and (function(code, parent)
		local script = Instance.new("ModuleScript")
		script.Source = code
		script.Parent = parent

		return script
	end))"#;

/// Luau statements for environments without `NewModuleScript`: they give
/// `NewModuleScript` a maker of modules whose sources are kept aside, and
/// route `require` of such a module to its stored source.
pub const LEGACY_NORMAL_REQUIRE: &'static str = r#"if NewModuleScript == nil then
	NewModuleScript = function(code, parent)
		local module = Instance.new("ModuleScript")
		module.Parent = parent
		MODULE_SOURCES[module] = code
		return module
	end
end
local MODULE_CACHE = {}
local nativeRequire = require
function require(module: any)
	if typeof(module) == "Instance" and MODULE_SOURCES[module] then
		if MODULE_CACHE[module] == nil then
			MODULE_CACHE[module] = { (loadstring(MODULE_SOURCES[module]) :: any)() }
		end
		return table.unpack(MODULE_CACHE[module])
	end
	return nativeRequire(module)
end"#;

/// Luau that opens the table of inlined module bodies.
pub const NOVEL_REQUIRE_HEAD: &'static str = "local MODULE_UNCACHED_LVALUE = newproxy()\nlocal INLINED_MODULES = {\n";

/// Luau that closes the table of inlined module bodies and shims `require`
/// and `NewModuleScript` around it.
pub const NOVEL_REQUIRE_TAIL: &'static str = r#"}
local MODULE_BY_INSTANCE = {}
local nativeRequire = require
local function shimmedRequire(module: any)
	local entry = MODULE_BY_INSTANCE[module]
	if entry == nil then
		return nativeRequire(module)
	end
	if entry.cache == MODULE_UNCACHED_LVALUE then
		entry.cache = { entry.load(module, shimmedRequire)() }
	end
	return table.unpack(entry.cache)
end
require = shimmedRequire
local NewModuleScript: (code: string, parent: Instance?, referent: number?) -> ModuleScript = function(_code, parent, referent)
	local module = Instance.new("ModuleScript")
	module.Parent = parent
	if referent ~= nil then
		MODULE_BY_INSTANCE[module] = INLINED_MODULES[referent]
	end
	return module
end"#;

/// Start of one inlined module entry, before its referent index.
pub const MODULE_ENTRY_OPEN: &'static str = "[";

/// Between a module's referent index and its source.
pub const MODULE_ENTRY_MIDDLE: &'static str = "] = { cache = MODULE_UNCACHED_LVALUE, load = function(script: ModuleScript, require: typeof(require)) return function()\n";

/// After a module's source.
pub const MODULE_ENTRY_CLOSE: &'static str = "\nend end },\n";

/// Head of every decoder.
pub const DECODER_HEAD: &'static str = "--!optimize 2\nlocal MODULE_SOURCES = {}\nlocal SCRIPT_CONSTRUCTORS = {}\n";

/// The table of axis-aligned rotations, keyed by rotation id.
pub const CFRAME_TABLE: &'static str = r#"local CFRAME_ID_LOOKUP_TABLE = {}
do
	local normals = { Vector3.xAxis, Vector3.yAxis, Vector3.zAxis, -Vector3.xAxis, -Vector3.yAxis, -Vector3.zAxis }
	for x = 0, 5 do
		for y = 0, 5 do
			local right, up = normals[x + 1], normals[y + 1]
			if right:Dot(up) == 0 then
				CFRAME_ID_LOOKUP_TABLE[6 * x + y + 1] = CFrame.fromMatrix(Vector3.zero, right, up)
			end
		end
	end
end
"#;

/// Registers the `Script` constructor.
pub const REGISTER_SCRIPT: &'static str = "\nSCRIPT_CONSTRUCTORS.Script = NewScript\n";

/// Registers the `LocalScript` constructor.
pub const REGISTER_LOCAL_SCRIPT: &'static str = "\nSCRIPT_CONSTRUCTORS.LocalScript = NewLocalScript\n";

/// Registers the `ModuleScript` constructor.
pub const REGISTER_MODULE_SCRIPT: &'static str = "\nSCRIPT_CONSTRUCTORS.ModuleScript = NewModuleScript\n";

/// The decoder's reading primitives, up to the variant table.
pub const DECODER_BODY_OPEN: &'static str = r#"
local function decode(payloadBuffer: buffer): Instance
	local loc = 0
	local size = buffer.len(payloadBuffer)

	local function nextUnsignedInteger(): number
		local result, scale = 0, 1
		while true do
			local byte = buffer.readu8(payloadBuffer, loc)
			loc += 1
			result += bit32.band(byte, 127) * scale
			if byte < 128 then
				return result
			end
			scale *= 128
		end
	end

	local function nextNullstring(): string
		local start = loc
		while buffer.readu8(payloadBuffer, loc) ~= 0 do
			loc += 1
		end
		loc += 1
		return buffer.readstring(payloadBuffer, start, loc - start - 1)
	end

	local VARIANT_DECODER
	local function nextVariant(): (any, number)
		local id = buffer.readu8(payloadBuffer, loc)
		loc += 1
		return VARIANT_DECODER[id](), id
	end

"#;

/// The decoder's node loop, after the variant table.
pub const DECODER_BODY_CLOSE: &'static str = r#"

	local instances = {}
	local pendingRefs = {}
	local root = nil

	while loc < size do
		local name = nextVariant()
		local className = nextNullstring()
		local referent = nextVariant()
		local parentReferent = nextVariant()
		local propertyCount = buffer.readu16(payloadBuffer, loc)
		loc += 2

		local properties = {}
		for _ = 1, propertyCount do
			local propertyName = nextNullstring()
			local value, id = nextVariant()
			if id == TYPE_ID.Ref then
				table.insert(pendingRefs, { referent, propertyName, value })
			else
				properties[propertyName] = value
			end
		end

		local parent = if parentReferent ~= nil then instances[parentReferent] else nil
		local constructor = SCRIPT_CONSTRUCTORS[className]
		local instance
		if constructor then
			instance = constructor(properties.Source or "", parent, referent)
		else
			local ok, created = pcall(Instance.new, className)
			instance = if ok then created else Instance.new("Folder")
		end
		instance.Name = name
		for propertyName, value in properties do
			if propertyName ~= "Source" or constructor == nil then
				pcall(function()
					instance[propertyName] = value
				end)
			end
		end
		if constructor == nil then
			instance.Parent = parent
		end

		instances[referent] = instance
		root = root or instance
	end

	for _, pending in pendingRefs do
		pcall(function()
			instances[pending[1]][pending[2]] = instances[pending[3]]
		end)
	end

	return root
end
"#;

/// Tail of a decoder that returns its entry point.
pub const RETURN_DECODE_TAIL: &'static str = "\nreturn decode\n";

/// `items` joined by ` or `.
pub open spec fn alternatives(items: Seq<Seq<char>>) -> Seq<char>
    decreases items.len(),
{
    if items.len() == 0 {
        seq![]
    } else if items.len() == 1 {
        items[0]
    } else {
        alternatives(items.drop_last()) + " or "@ + items.last()
    }
}

/// Joins `items` with ` or `.
fn join_or(items: &Vec<&str>) -> (r: String)
    ensures
        r@ == alternatives(items@.map_values(|s: &str| s@)),
{
    let ghost v = items@.map_values(|s: &str| s@);
    let mut output = String::new();
    let mut i: usize = 0;
    while i < items.len()
        invariant
            i <= items@.len(),
            v == items@.map_values(|s: &str| s@),
            output@ == alternatives(v.take(i as int)),
        decreases items@.len() - i,
    {
        if i > 0 {
            output.append(" or ");
        }
        output.append(items[i]);
        i += 1;
        assert(v.take(i as int).drop_last() =~= v.take(i - 1));
        assert(v.take(1) =~= seq![items@[0]@]);
    }
    assert(v.take(items@.len() as int) =~= v);
    output
}

/// The script-making expressions available under `r`: the environment's own
/// function, then Studio's.
pub open spec fn script_exprs(r: Requirements, native: Seq<char>, studio: Seq<char>, native_ok: bool) -> Seq<Seq<char>> {
    (if native_ok {
        seq![native]
    } else {
        seq![]
    }) + (if r.has(Requirements::STUDIO_SUPPORT) {
        seq![studio]
    } else {
        seq![]
    })
}

/// The `NewScript` binding for `r`.
pub open spec fn new_script_glue(r: Requirements) -> Seq<char> {
    "local NewScript: (code: string, parent: Instance?) -> Script = "@ + alternatives(
        script_exprs(
            r,
            "NewScript"@,
            STUDIO_SCRIPT@,
            r.has(Requirements::OPENSB_SUPPORT) || r.has(Requirements::LEGACY_SUPPORT),
        ),
    )
}

/// The `NewLocalScript` binding for `r`.
pub open spec fn new_local_script_glue(r: Requirements) -> Seq<char> {
    "local NewLocalScript: (code: string, parent: Instance?) -> LocalScript = "@ + alternatives(
        script_exprs(
            r,
            "NewLocalScript"@,
            STUDIO_LOCAL_SCRIPT@,
            r.has(Requirements::OPENSB_SUPPORT) || r.has(Requirements::LEGACY_SUPPORT),
        ),
    )
}

fn generate_new_script_glue(requirements: Requirements) -> (r: String)
    ensures
        r@ == new_script_glue(requirements),
{
    let mut exprs: Vec<&str> = Vec::new();
    if requirements.contains(Requirements::OPENSB_SUPPORT) || requirements.contains(Requirements::LEGACY_SUPPORT) {
        exprs.push("NewScript");
    }
    if requirements.contains(Requirements::STUDIO_SUPPORT) {
        exprs.push(STUDIO_SCRIPT);
    }
    proof {
        assert(exprs@.map_values(|s: &str| s@) =~= script_exprs(
            requirements,
            "NewScript"@,
            STUDIO_SCRIPT@,
            requirements.has(Requirements::OPENSB_SUPPORT) || requirements.has(Requirements::LEGACY_SUPPORT),
        ));
    }
    let mut output = String::from_str("local NewScript: (code: string, parent: Instance?) -> Script = ");
    let joined = join_or(&exprs);
    output.append(joined.as_str());
    output
}

fn generate_new_local_script_glue(requirements: Requirements) -> (r: String)
    ensures
        r@ == new_local_script_glue(requirements),
{
    let mut exprs: Vec<&str> = Vec::new();
    if requirements.contains(Requirements::OPENSB_SUPPORT) || requirements.contains(Requirements::LEGACY_SUPPORT) {
        exprs.push("NewLocalScript");
    }
    if requirements.contains(Requirements::STUDIO_SUPPORT) {
        exprs.push(STUDIO_LOCAL_SCRIPT);
    }
    proof {
        assert(exprs@.map_values(|s: &str| s@) =~= script_exprs(
            requirements,
            "NewLocalScript"@,
            STUDIO_LOCAL_SCRIPT@,
            requirements.has(Requirements::OPENSB_SUPPORT) || requirements.has(Requirements::LEGACY_SUPPORT),
        ));
    }
    let mut output = String::from_str("local NewLocalScript: (code: string, parent: Instance?) -> LocalScript = ");
    let joined = join_or(&exprs);
    output.append(joined.as_str());
    output
}

/// The decimal digit `d`.
pub open spec fn digit_text(d: nat) -> &'static str {
    if d == 0 {
        "0"
    } else if d == 1 {
        "1"
    } else if d == 2 {
        "2"
    } else if d == 3 {
        "3"
    } else if d == 4 {
        "4"
    } else if d == 5 {
        "5"
    } else if d == 6 {
        "6"
    } else if d == 7 {
        "7"
    } else if d == 8 {
        "8"
    } else {
        "9"
    }
}

/// `n` in decimal, without leading zeros.
pub open spec fn decimal(n: nat) -> Seq<char>
    decreases n,
{
    if n < 10 {
        digit_text(n)@
    } else {
        decimal(n / 10) + digit_text(n % 10)@
    }
}

fn digit(d: usize) -> (r: &'static str)
    requires
        d < 10,
    ensures
        r == digit_text(d as nat),
{
    if d == 0 {
        "0"
    } else if d == 1 {
        "1"
    } else if d == 2 {
        "2"
    } else if d == 3 {
        "3"
    } else if d == 4 {
        "4"
    } else if d == 5 {
        "5"
    } else if d == 6 {
        "6"
    } else if d == 7 {
        "7"
    } else if d == 8 {
        "8"
    } else {
        "9"
    }
}

/// Writes `n` in decimal.
pub fn decimal_string(n: usize) -> (r: String)
    ensures
        r@ == decimal(n as nat),
    decreases n,
{
    if n < 10 {
        String::from_str(digit(n))
    } else {
        let mut output = decimal_string(n / 10);
        output.append(digit(n % 10));
        output
    }
}

/// One inlined module: its referent index and its source in a loader.
pub open spec fn module_entry(m: (usize, String)) -> Seq<char> {
    MODULE_ENTRY_OPEN@ + decimal(m.0 as nat) + MODULE_ENTRY_MIDDLE@ + m.1@ + MODULE_ENTRY_CLOSE@
}

/// The inlined modules, in order.
pub open spec fn module_entries(mods: Seq<(usize, String)>) -> Seq<char>
    decreases mods.len(),
{
    if mods.len() == 0 {
        seq![]
    } else {
        module_entries(mods.drop_last()) + module_entry(mods.last())
    }
}

/// The module-making expressions available under `r`.
pub open spec fn module_exprs(r: Requirements) -> Seq<Seq<char>> {
    (if r.has(Requirements::OPENSB_SUPPORT) {
        seq!["NewModuleScript"@]
    } else {
        seq![]
    }) + (if r.has(Requirements::STUDIO_SUPPORT) {
        seq![STUDIO_MODULE_SCRIPT@]
    } else {
        seq![]
    }) + (if r.has(Requirements::LEGACY_SUPPORT) {
        seq!["nil\n"@ + LEGACY_NORMAL_REQUIRE@ + ";"@]
    } else {
        seq![]
    })
}

/// The `NewModuleScript` binding for `r`: the inlined module table and its
/// loader when inlining, else the available constructors joined by `or`; in
/// legacy environments the last alternative is `nil`, followed by the
/// statements of the legacy shim.
pub open spec fn new_module_script_glue(r: Requirements, mods: Seq<(usize, String)>) -> Seq<char> {
    if r.has(Requirements::USE_NOVEL_INLINING) {
        NOVEL_REQUIRE_HEAD@ + module_entries(mods) + NOVEL_REQUIRE_TAIL@
    } else {
        "local NewModuleScript: (code: string, parent: Instance?) -> ModuleScript = "@ + alternatives(
            module_exprs(r),
        )
    }
}

fn generate_new_module_script_glue(options: &Options) -> (r: String)
    ensures
        r@ == new_module_script_glue(options.generation_requirements, options.module_script_sources@),
{
    let requirements = options.generation_requirements;
    if requirements.contains(Requirements::USE_NOVEL_INLINING) {
        let mods = &options.module_script_sources;
        let mut output = String::from_str(NOVEL_REQUIRE_HEAD);
        let mut i: usize = 0;
        while i < mods.len()
            invariant
                i <= mods@.len(),
                output@ == NOVEL_REQUIRE_HEAD@ + module_entries(mods@.take(i as int)),
            decreases mods@.len() - i,
        {
            output.append(MODULE_ENTRY_OPEN);
            let index = decimal_string(mods[i].0);
            output.append(index.as_str());
            output.append(MODULE_ENTRY_MIDDLE);
            output.append(mods[i].1.as_str());
            output.append(MODULE_ENTRY_CLOSE);
            i += 1;
            assert(mods@.take(i as int).drop_last() =~= mods@.take(i - 1));
        }
        assert(mods@.take(mods@.len() as int) =~= mods@);
        output.append(NOVEL_REQUIRE_TAIL);
        return output;
    }
    let mut legacy = String::from_str("nil\n");
    legacy.append(LEGACY_NORMAL_REQUIRE);
    legacy.append(";");
    let mut exprs: Vec<&str> = Vec::new();
    if requirements.contains(Requirements::OPENSB_SUPPORT) {
        exprs.push("NewModuleScript");
    }
    if requirements.contains(Requirements::STUDIO_SUPPORT) {
        exprs.push(STUDIO_MODULE_SCRIPT);
    }
    if requirements.contains(Requirements::LEGACY_SUPPORT) {
        exprs.push(legacy.as_str());
    }
    proof {
        assert(exprs@.map_values(|s: &str| s@) =~= module_exprs(requirements));
    }
    let mut output = String::from_str("local NewModuleScript: (code: string, parent: Instance?) -> ModuleScript = ");
    let joined = join_or(&exprs);
    output.append(joined.as_str());
    output
}

/// The rotation table, when flagged.
pub open spec fn cframe_part(r: Requirements) -> Seq<char> {
    if r.has(Requirements::CFRAME_LOOKUP_TABLE) {
        CFRAME_TABLE@
    } else {
        seq![]
    }
}

/// The flagged script glue: `Script`, `LocalScript`, then `ModuleScript`.
pub open spec fn scripts_part(r: Requirements, mods: Seq<(usize, String)>) -> Seq<char> {
    (if r.has(Requirements::NEW_SCRIPT_FUNCTION) {
        new_script_glue(r) + REGISTER_SCRIPT@
    } else {
        seq![]
    }) + (if r.has(Requirements::NEW_LOCAL_SCRIPT_FUNCTION) {
        new_local_script_glue(r) + REGISTER_LOCAL_SCRIPT@
    } else {
        seq![]
    }) + (if r.has(Requirements::NEW_MODULE_SCRIPT_FUNCTION) {
        new_module_script_glue(r, mods) + REGISTER_MODULE_SCRIPT@
    } else {
        seq![]
    })
}

/// `return decode`, when flagged.
pub open spec fn return_part(r: Requirements) -> Seq<char> {
    if r.has(Requirements::RETURN_DECODE) {
        RETURN_DECODE_TAIL@
    } else {
        seq![]
    }
}

/// The whole decoder for flags `r`, kinds `ids` and inlined modules `mods`:
/// the kind table, the rotation table when flagged, the script glue that is
/// flagged, the reading primitives, the decode fragments of exactly the
/// kinds in `ids`, the node loop, and `return decode` when flagged.
pub open spec fn decoder_source(r: Requirements, ids: Set<TypeId>, mods: Seq<(usize, String)>) -> Seq<char> {
    DECODER_HEAD@ + type_id_table(ids) + "\n"@ + cframe_part(r) + scripts_part(r, mods) + DECODER_BODY_OPEN@
        + variant_decoder_table(ids) + DECODER_BODY_CLOSE@ + return_part(r)
}

fn append_scripts(output: &mut String, options: &Options)
    ensures
        final(output)@ == old(output)@ + scripts_part(options.generation_requirements, options.module_script_sources@),
{
    let requirements = options.generation_requirements;
    let ghost start = output@;
    let ghost a: Seq<char> = if requirements.has(Requirements::NEW_SCRIPT_FUNCTION) {
        new_script_glue(requirements) + REGISTER_SCRIPT@
    } else {
        seq![]
    };
    let ghost b: Seq<char> = if requirements.has(Requirements::NEW_LOCAL_SCRIPT_FUNCTION) {
        new_local_script_glue(requirements) + REGISTER_LOCAL_SCRIPT@
    } else {
        seq![]
    };
    let ghost c: Seq<char> = if requirements.has(Requirements::NEW_MODULE_SCRIPT_FUNCTION) {
        new_module_script_glue(requirements, options.module_script_sources@) + REGISTER_MODULE_SCRIPT@
    } else {
        seq![]
    };
    if requirements.contains(Requirements::NEW_SCRIPT_FUNCTION) {
        let glue = generate_new_script_glue(requirements);
        output.append(glue.as_str());
        output.append(REGISTER_SCRIPT);
    }
    assert(output@ =~= start + a);
    if requirements.contains(Requirements::NEW_LOCAL_SCRIPT_FUNCTION) {
        let glue = generate_new_local_script_glue(requirements);
        output.append(glue.as_str());
        output.append(REGISTER_LOCAL_SCRIPT);
    }
    assert(output@ =~= start + a + b);
    if requirements.contains(Requirements::NEW_MODULE_SCRIPT_FUNCTION) {
        let glue = generate_new_module_script_glue(options);
        output.append(glue.as_str());
        output.append(REGISTER_MODULE_SCRIPT);
    }
    assert(output@ =~= start + (a + b + c));
}

/// Generates a decoder specialised to `options`.
pub fn generate_with_options(options: &Options) -> (r: String)
    ensures
        r@ == decoder_source(
            options.generation_requirements,
            options.known_needed_type_ids.view(),
            options.module_script_sources@,
        ),
{
    let requirements = options.generation_requirements;
    let mut output = String::from_str(DECODER_HEAD);
    let table = get_luau_for_type_ids(&options.known_needed_type_ids);
    output.append(table.as_str());
    output.append("\n");
    let ghost p1 = output@;
    if requirements.contains(Requirements::CFRAME_LOOKUP_TABLE) {
        output.append(CFRAME_TABLE);
    }
    assert(output@ =~= p1 + cframe_part(requirements));
    append_scripts(&mut output, options);
    output.append(DECODER_BODY_OPEN);
    let variants = get_luau_variant_decoder_for_ids(&options.known_needed_type_ids);
    output.append(variants.as_str());
    output.append(DECODER_BODY_CLOSE);
    let ghost p2 = output@;
    if requirements.contains(Requirements::RETURN_DECODE) {
        output.append(RETURN_DECODE_TAIL);
    }
    assert(output@ =~= p2 + return_part(requirements));
    output
}

/// A decoder for every kind and every script class, with the runtime module
/// loader. Module scripts must have been encoded with their `Source`.
pub fn generate_full_decoder() -> (r: String)
    ensures
        r@ == decoder_source(Requirements { bits: 1023 & !Requirements::USE_NOVEL_INLINING }, Set::full(), seq![]),
{
    let options = Options {
        generation_requirements: Requirements::all().difference(Requirements::USE_NOVEL_INLINING),
        known_needed_type_ids: TypeIdSet::all(),
        module_script_sources: Vec::new(),
        referent_map: ReferentTable::new(),
    };
    proof {
        assert(options.module_script_sources@ =~= seq![]);
    }
    generate_with_options(&options)
}

/// Kinds that every decoder needs, whatever the tree: node names are
/// strings, and node references are references or nothing.
pub open spec fn structural_ids() -> Set<TypeId> {
    set![TypeId::String, TypeId::Ref, TypeId::Nil]
}

/// The kinds a value contributes: its own, and for named-value maps, those
/// of every value inside.
pub open spec fn value_ids(v: Value) -> Set<TypeId>
    decreases v,
{
    match v {
        Value::Attributes(entries) => entries_ids(entries@).insert(TypeId::Attributes),
        _ => set![v.kind()],
    }
}

/// The kinds contributed by named values.
pub open spec fn entries_ids(s: Seq<(String, Value)>) -> Set<TypeId>
    decreases s,
{
    if s.len() == 0 {
        Set::empty()
    } else {
        entries_ids(s.drop_last()).union(value_ids(s.last().1))
    }
}

/// The kinds contributed by the properties of every node of the subtree.
pub open spec fn tree_ids(n: Node) -> Set<TypeId>
    decreases n,
{
    entries_ids(n.properties@).union(forest_ids(n.children@))
}

/// The kinds contributed by every subtree in `s`.
pub open spec fn forest_ids(s: Seq<Node>) -> Set<TypeId>
    decreases s,
{
    if s.len() == 0 {
        Set::empty()
    } else {
        forest_ids(s.drop_last()).union(tree_ids(s.last()))
    }
}

/// Some node of the subtree has class `c`.
pub open spec fn has_class(n: Node, c: Seq<char>) -> bool
    decreases n,
{
    n.class@ == c || forest_has_class(n.children@, c)
}

/// Some node of some subtree in `s` has class `c`.
pub open spec fn forest_has_class(s: Seq<Node>, c: Seq<char>) -> bool
    decreases s,
{
    s.len() > 0 && (forest_has_class(s.drop_last(), c) || has_class(s.last(), c))
}

/// The kinds a decoder of the tree under `root` needs.
pub open spec fn used_ids(root: Node) -> Set<TypeId> {
    structural_ids().union(tree_ids(root))
}

/// The implicit flags of the tree under `root`: the rotation table when a
/// transform is written, and one flag per script-like or mesh class seen.
pub open spec fn implicit_bits(root: Node) -> u16 {
    ((if used_ids(root).contains(TypeId::CFrame) {
        Requirements::CFRAME_LOOKUP_TABLE
    } else {
        0
    }) + (if has_class(root, "Script"@) {
        Requirements::NEW_SCRIPT_FUNCTION
    } else {
        0
    }) + (if has_class(root, "LocalScript"@) {
        Requirements::NEW_LOCAL_SCRIPT_FUNCTION
    } else {
        0
    }) + (if has_class(root, "ModuleScript"@) {
        Requirements::NEW_MODULE_SCRIPT_FUNCTION
    } else {
        0
    }) + (if has_class(root, "MeshPart"@) {
        Requirements::MESH_PART_SUPPORT
    } else {
        0
    })) as u16
}

/// Class names the analyzer looks for.
struct ClassNames {
    script: String,
    local_script: String,
    module_script: String,
    mesh_part: String,
}

/// Which of the looked-for classes have been seen.
struct ClassesSeen {
    script: bool,
    local_script: bool,
    module_script: bool,
    mesh_part: bool,
}

proof fn lemma_union_assoc(a: Set<TypeId>, b: Set<TypeId>, c: Set<TypeId>)
    ensures
        a.union(b).union(c) == a.union(b.union(c)),
{
    assert(a.union(b).union(c) =~= a.union(b.union(c)));
}

fn collect_value(v: &Value, ids: &mut TypeIdSet)
    ensures
        final(ids).view() == old(ids).view().union(value_ids(*v)),
    decreases v,
{
    match v {
        Value::Attributes(entries) => {
            let ghost start = ids.view();
            proof {
                vstd::std_specs::vec::axiom_vec_decreases_to_view(*entries);
            }
            let mut i: usize = 0;
            while i < entries.len()
                invariant
                    decreases_to!(*v => entries@),
                    i <= entries@.len(),
                    ids.view() == start.union(entries_ids(entries@.take(i as int))),
                decreases entries@.len() - i,
            {
                proof {
                    vstd::seq::axiom_seq_index_decreases(entries@, i as int);
                }
                collect_value(&entries[i].1, ids);
                i += 1;
                proof {
                    assert(entries@.take(i as int).drop_last() =~= entries@.take(i - 1));
                    lemma_union_assoc(start, entries_ids(entries@.take(i - 1)), value_ids(entries@[i - 1].1));
                }
            }
            assert(entries@.take(entries@.len() as int) =~= entries@);
            ids.insert(TypeId::Attributes);
            assert(ids.view() =~= start.union(value_ids(*v)));
        },
        _ => {
            let ghost start = ids.view();
            ids.insert(v.type_id());
            assert(ids.view() =~= start.union(value_ids(*v)));
        },
    }
}

/// The kinds a value contributes, as a list: for a named-value map, the
/// lists of its entries' values in order, then the map's own kind; for any
/// other value, its kind alone.
pub open spec fn kind_list(v: Value) -> Seq<TypeId>
    decreases v,
{
    match v {
        Value::Attributes(entries) => entries_kind_list(entries@) + seq![TypeId::Attributes],
        _ => seq![v.kind()],
    }
}

/// The kind lists of the values of `s`, one after the other.
pub open spec fn entries_kind_list(s: Seq<(String, Value)>) -> Seq<TypeId>
    decreases s,
{
    if s.len() == 0 {
        seq![]
    } else {
        entries_kind_list(s.drop_last()) + kind_list(s.last().1)
    }
}

/// The kinds a value contributes, as a list: for a named-value map, those of
/// its entries' values in order, then the map's own kind.
pub fn variant_to_type_id(variant: &Value) -> (r: Vec<TypeId>)
    ensures
        r@ == kind_list(*variant),
    decreases variant,
{
    match variant {
        Value::Attributes(entries) => {
            let mut tys: Vec<TypeId> = Vec::new();
            proof {
                vstd::std_specs::vec::axiom_vec_decreases_to_view(*entries);
            }
            let mut i: usize = 0;
            while i < entries.len()
                invariant
                    decreases_to!(*variant => entries@),
                    i <= entries@.len(),
                    tys@ == entries_kind_list(entries@.take(i as int)),
                decreases entries@.len() - i,
            {
                proof {
                    vstd::seq::axiom_seq_index_decreases(entries@, i as int);
                }
                let mut inner = variant_to_type_id(&entries[i].1);
                tys.append(&mut inner);
                i += 1;
                assert(entries@.take(i as int).drop_last() =~= entries@.take(i - 1));
            }
            assert(entries@.take(entries@.len() as int) =~= entries@);
            tys.push(TypeId::Attributes);
            tys
        },
        _ => {
            let r = vec![variant.type_id()];
            assert(r@ =~= seq![variant.kind()]);
            r
        },
    }
}

fn collect_node(n: &Node, names: &ClassNames, ids: &mut TypeIdSet, seen: &mut ClassesSeen)
    requires
        names.script@ == "Script"@,
        names.local_script@ == "LocalScript"@,
        names.module_script@ == "ModuleScript"@,
        names.mesh_part@ == "MeshPart"@,
    ensures
        final(ids).view() == old(ids).view().union(tree_ids(*n)),
        final(seen).script == (old(seen).script || has_class(*n, "Script"@)),
        final(seen).local_script == (old(seen).local_script || has_class(*n, "LocalScript"@)),
        final(seen).module_script == (old(seen).module_script || has_class(*n, "ModuleScript"@)),
        final(seen).mesh_part == (old(seen).mesh_part || has_class(*n, "MeshPart"@)),
    decreases n,
{
    let ghost start = ids.view();
    let ghost seen0 = *seen;
    if n.class == names.script {
        seen.script = true;
    }
    if n.class == names.local_script {
        seen.local_script = true;
    }
    if n.class == names.module_script {
        seen.module_script = true;
    }
    if n.class == names.mesh_part {
        seen.mesh_part = true;
    }
    let props = &n.properties;
    let mut i: usize = 0;
    while i < props.len()
        invariant
            i <= props@.len(),
            ids.view() == start.union(entries_ids(props@.take(i as int))),
        decreases props@.len() - i,
    {
        collect_value(&props[i].1, ids);
        i += 1;
        proof {
            assert(props@.take(i as int).drop_last() =~= props@.take(i - 1));
            lemma_union_assoc(start, entries_ids(props@.take(i - 1)), value_ids(props@[i - 1].1));
        }
    }
    assert(props@.take(props@.len() as int) =~= props@);
    let ghost mid = ids.view();
    let ghost seen1 = *seen;
    let children = &n.children;
    proof {
        vstd::std_specs::vec::axiom_vec_decreases_to_view(*children);
    }
    let mut j: usize = 0;
    while j < children.len()
        invariant
            decreases_to!(*n => children@),
            children@ == n.children@,
            names.script@ == "Script"@,
            names.local_script@ == "LocalScript"@,
            names.module_script@ == "ModuleScript"@,
            names.mesh_part@ == "MeshPart"@,
            j <= children@.len(),
            ids.view() == mid.union(forest_ids(children@.take(j as int))),
            seen.script == (seen1.script || forest_has_class(children@.take(j as int), "Script"@)),
            seen.local_script == (seen1.local_script || forest_has_class(children@.take(j as int), "LocalScript"@)),
            seen.module_script == (seen1.module_script || forest_has_class(children@.take(j as int), "ModuleScript"@)),
            seen.mesh_part == (seen1.mesh_part || forest_has_class(children@.take(j as int), "MeshPart"@)),
        decreases children@.len() - j,
    {
        proof {
            vstd::seq::axiom_seq_index_decreases(children@, j as int);
        }
        collect_node(&children[j], names, ids, seen);
        j += 1;
        proof {
            assert(children@.take(j as int).drop_last() =~= children@.take(j - 1));
            lemma_union_assoc(mid, forest_ids(children@.take(j - 1)), tree_ids(children@[j - 1]));
        }
    }
    assert(children@.take(children@.len() as int) =~= children@);
    proof {
        lemma_union_assoc(start, entries_ids(n.properties@), forest_ids(n.children@));
    }
}

/// Walks the tree under `root` once and returns the kinds its decoder needs
/// and the implicit flags it sets.
pub fn analyze(root: &Node) -> (r: (TypeIdSet, Requirements))
    ensures
        r.0.view() == used_ids(*root),
        r.1.bits == implicit_bits(*root),
{
    let names = ClassNames {
        script: String::from_str("Script"),
        local_script: String::from_str("LocalScript"),
        module_script: String::from_str("ModuleScript"),
        mesh_part: String::from_str("MeshPart"),
    };
    let mut ids = TypeIdSet::new();
    ids.insert(TypeId::String);
    ids.insert(TypeId::Ref);
    ids.insert(TypeId::Nil);
    assert(ids.view() =~= structural_ids());
    let mut seen = ClassesSeen { script: false, local_script: false, module_script: false, mesh_part: false };
    collect_node(root, &names, &mut ids, &mut seen);
    let mut bits: u16 = 0;
    if ids.contains(TypeId::CFrame) {
        bits = bits + Requirements::CFRAME_LOOKUP_TABLE;
    }
    if seen.script {
        bits = bits + Requirements::NEW_SCRIPT_FUNCTION;
    }
    if seen.local_script {
        bits = bits + Requirements::NEW_LOCAL_SCRIPT_FUNCTION;
    }
    if seen.module_script {
        bits = bits + Requirements::NEW_MODULE_SCRIPT_FUNCTION;
    }
    if seen.mesh_part {
        bits = bits + Requirements::MESH_PART_SUPPORT;
    }
    (ids, Requirements { bits })
}

/// The last `Source` property among `s` that holds a string.
pub open spec fn source_of(s: Seq<(String, Value)>) -> Option<String>
    decreases s.len(),
{
    if s.len() == 0 {
        None
    } else if s.last().0@ == "Source"@ && s.last().1 is String {
        Some(s.last().1->String_0)
    } else {
        source_of(s.drop_last())
    }
}

/// The module scripts of the subtree `n`, in depth-first order, each with
/// its referent index in `t` and its source; a module without a string
/// `Source`, or whose identity `t` lacks, is left out.
pub open spec fn module_sources(n: Node, t: Seq<u128>) -> Seq<(usize, String)>
    decreases n,
{
    (if n.class@ == "ModuleScript"@ && t.contains(n.referent) && source_of(n.properties@) is Some {
        seq![(ref_index(t, n.referent) as usize, source_of(n.properties@)->Some_0)]
    } else {
        seq![]
    }) + forest_module_sources(n.children@, t)
}

/// The module scripts of every subtree in `s`, in order.
pub open spec fn forest_module_sources(s: Seq<Node>, t: Seq<u128>) -> Seq<(usize, String)>
    decreases s,
{
    if s.len() == 0 {
        seq![]
    } else {
        forest_module_sources(s.drop_last(), t) + module_sources(s.last(), t)
    }
}

fn find_source(props: &Vec<(String, Value)>, source_name: &String) -> (r: Option<String>)
    requires
        source_name@ == "Source"@,
    ensures
        r == source_of(props@),
{
    let mut found: Option<String> = None;
    let mut i: usize = 0;
    while i < props.len()
        invariant
            i <= props@.len(),
            source_name@ == "Source"@,
            found == source_of(props@.take(i as int)),
        decreases props@.len() - i,
    {
        if props[i].0 == *source_name {
            match &props[i].1 {
                Value::String(text) => {
                    found = Some(text.clone());
                },
                _ => {},
            }
        }
        i += 1;
        assert(props@.take(i as int).drop_last() =~= props@.take(i - 1));
    }
    assert(props@.take(props@.len() as int) =~= props@);
    found
}

fn collect_modules(n: &Node, module_name: &String, source_name: &String, table: &ReferentTable, out: &mut Vec<(usize, String)>)
    requires
        table.wf(),
        module_name@ == "ModuleScript"@,
        source_name@ == "Source"@,
    ensures
        final(out)@ == old(out)@ + module_sources(*n, table@),
    decreases n,
{
    let ghost start = out@;
    if n.class == *module_name {
        if let Some(index) = table.get(n.referent) {
            if let Some(source) = find_source(&n.properties, source_name) {
                out.push((index, source));
            }
        }
    }
    let ghost mid = out@;
    let children = &n.children;
    proof {
        vstd::std_specs::vec::axiom_vec_decreases_to_view(*children);
    }
    let mut j: usize = 0;
    while j < children.len()
        invariant
            decreases_to!(*n => children@),
            children@ == n.children@,
            table.wf(),
            module_name@ == "ModuleScript"@,
            source_name@ == "Source"@,
            j <= children@.len(),
            out@ == mid + forest_module_sources(children@.take(j as int), table@),
        decreases children@.len() - j,
    {
        proof {
            vstd::seq::axiom_seq_index_decreases(children@, j as int);
        }
        collect_modules(&children[j], module_name, source_name, table, out);
        j += 1;
        assert(children@.take(j as int).drop_last() =~= children@.take(j - 1));
    }
    assert(children@.take(children@.len() as int) =~= children@);
    assert(out@ =~= start + module_sources(*n, table@));
}

/// Encodes the tree under `root` into `writer` and returns what the
/// generator needs for its decoder: the explicit flags of `base` together
/// with the tree's implicit flags, the kinds the tree uses, its module
/// sources, and the referent table.
pub fn encode_for_decoder(root: &Node, writer: &mut Vec<u8>, base: Requirements) -> (r: Result<Options, EncodeError>)
    ensures
        r is Ok <==> fits(*root),
        r matches Ok(o) ==> {
            &&& final(writer)@ == old(writer)@ + node_enc(*root, seq![]).0
            &&& o.referent_map.wf()
            &&& o.referent_map@ == node_enc(*root, seq![]).1
            &&& o.generation_requirements.bits == base.bits | implicit_bits(*root)
            &&& o.known_needed_type_ids.view() == used_ids(*root)
            &&& o.module_script_sources@ == module_sources(*root, o.referent_map@)
        },
        r matches Err(e) ==> e == EncodeError::TooManyProperties && final(writer)@ == old(writer)@,
{
    let table = match encode_dom_into_writer(root, writer) {
        Ok(table) => table,
        Err(e) => {
            return Err(e);
        },
    };
    let (ids, implicit) = analyze(root);
    let module_name = String::from_str("ModuleScript");
    let source_name = String::from_str("Source");
    let mut sources: Vec<(usize, String)> = Vec::new();
    collect_modules(root, &module_name, &source_name, &table, &mut sources);
    assert(sources@ =~= module_sources(*root, table@));
    let mut requirements = base;
    requirements.insert(implicit.bits);
    Ok(Options {
        generation_requirements: requirements,
        known_needed_type_ids: ids,
        module_script_sources: sources,
        referent_map: table,
    })
}

/// A tree whose properties hold only booleans and strings, some boolean
/// among them, and that has no script-like node, needs exactly the string,
/// reference, nothing and boolean kinds, and none of the script flags.
pub proof fn lemma_requirement_minimality(root: Node)
    requires
        forall|t: TypeId| #[trigger] tree_ids(root).contains(t) ==> t == TypeId::Bool || t == TypeId::String,
        tree_ids(root).contains(TypeId::Bool),
        !has_class(root, "Script"@),
        !has_class(root, "LocalScript"@),
        !has_class(root, "ModuleScript"@),
    ensures
        used_ids(root) == set![TypeId::String, TypeId::Ref, TypeId::Nil, TypeId::Bool],
        !(Requirements { bits: implicit_bits(root) }).has(Requirements::NEW_SCRIPT_FUNCTION),
        !(Requirements { bits: implicit_bits(root) }).has(Requirements::NEW_LOCAL_SCRIPT_FUNCTION),
        !(Requirements { bits: implicit_bits(root) }).has(Requirements::NEW_MODULE_SCRIPT_FUNCTION),
        !(Requirements { bits: implicit_bits(root) }).has(Requirements::CFRAME_LOOKUP_TABLE),
{
    assert(used_ids(root) =~= set![TypeId::String, TypeId::Ref, TypeId::Nil, TypeId::Bool]);
    let b = implicit_bits(root);
    assert(b == 0 || b == 16);
    assert(b == 0u16 || b == 16u16 ==> (b & 2u16) != 2u16 && (b & 4u16) != 4u16 && (b & 8u16) != 8u16 && (b
        & 1u16) != 1u16) by (bit_vector);
}

} // verus!
