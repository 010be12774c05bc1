//! Self-contained scripts: the payload is compressed, packed with Base122
//! into a string literal, and placed after a decoder specialised to it.
use crate::base122::{encode, encoded, lemma_encoded_is_utf8};
use crate::emit::{decoder_source, encode_for_decoder, generate_with_options, implicit_bits, module_sources, used_ids, Options, Requirements};
use crate::encoder::{fits, node_enc, EncodeError};
use crate::model::Node;
use std::io::Write;
use vstd::prelude::*;
use vstd::string::StringExecFns;
use vstd::utf8::{decode_utf8, valid_utf8};

verus! {

/// The zstd frame of `data` at compression `level`, with a checksum and the
/// content size recorded in its header.
pub uninterp spec fn zstd_frame(data: Seq<u8>, level: u8) -> Seq<u8>;

/// Relies on zstd::stream::write::Encoder: compresses `data` at `level` into
/// a single frame that records a checksum and the pledged content size. It
/// succeeds: zstd clamps the level into its range, the pledged size is the
/// exact input size, and writing into a `Vec` cannot fail.
#[verifier::external_body]
fn compress(data: &Vec<u8>, level: u8) -> (r: Option<Vec<u8>>)
    ensures
        r is Some,
        r matches Some(c) ==> c@ == zstd_frame(data@, level),
{
    let mut encoder = zstd::Encoder::new(Vec::new(), i32::from(level)).ok()?;
    encoder.include_checksum(true).ok()?;
    encoder.include_contentsize(true).ok()?;
    encoder.set_pledged_src_size(Some(data.len() as u64)).ok()?;
    encoder.write_all(data).ok()?;
    encoder.finish().ok()
}

/// Relies on String::from_utf8: it succeeds exactly on valid UTF-8, and the
/// string holds the characters the bytes encode.
#[verifier::external_body]
fn utf8_string(bytes: Vec<u8>) -> (r: Option<String>)
    ensures
        r is Some <==> valid_utf8(bytes@),
        r matches Some(s) ==> s@ == decode_utf8(bytes@),
{
    String::from_utf8(bytes).ok()
}

/// Why a script could not be made.
#[derive(Debug, PartialEq, Eq, Structural)]
pub enum ScriptError {
    /// A node has more properties than the 16-bit count field can hold.
    TooManyProperties,
    /// A module script bundle needs a root with exactly one child, a `ModuleScript`.
    RootNotSingleModule,
}

/// Luau before the packed payload: opens the string literal that holds it.
pub const COMBINATOR_HEAD: &'static str = "\nlocal payloadBuffer: buffer\ndo\n\tlocal packed = \"";

/// Luau after the packed payload: unpacks the Base122 text, and hands the
/// compressed bytes to the engine's buffer decoder.
pub const COMBINATOR_TAIL: &'static str = r#""
	local FORBIDDEN = { 0, 10, 13, 34, 92 }
	local bytes = {}
	local pending, pendingBits = 0, 0
	local function pushChunk(chunk: number)
		pending = pending * 128 + chunk
		pendingBits += 7
		if pendingBits >= 8 then
			pendingBits -= 8
			local divisor = 2 ^ pendingBits
			table.insert(bytes, math.floor(pending / divisor))
			pending %= divisor
		end
	end
	local i = 1
	while i <= #packed do
		local lead = string.byte(packed, i)
		if lead < 128 then
			pushChunk(lead)
			i += 1
		else
			local tail = string.byte(packed, i + 1)
			local index = bit32.extract(lead, 2, 3)
			if index ~= 7 then
				pushChunk(FORBIDDEN[index + 1])
			end
			pushChunk(bit32.extract(lead, 0, 1) * 64 + bit32.band(tail, 63))
			i += 2
		end
	end
	local ALPHABET = "ABCDEFGHIJKLMNOPQRSTUVWXYZabcdefghijklmnopqrstuvwxyz0123456789+/"
	local encoded = {}
	for j = 1, #bytes, 3 do
		local a, b, c = bytes[j], bytes[j + 1], bytes[j + 2]
		local n = a * 65536 + (b or 0) * 256 + (c or 0)
		local digits = {}
		for k = 1, 4 do
			local index = bit32.extract(n, (4 - k) * 6, 6)
			digits[k] = string.sub(ALPHABET, index + 1, index + 1)
		end
		if b == nil then
			digits[3] = "="
		end
		if c == nil then
			digits[4] = "="
		end
		table.insert(encoded, table.concat(digits))
	end
	payloadBuffer = game:GetService("HttpService"):JSONDecode('{"m":null,"t":"buffer","zbase64":"' .. table.concat(encoded) .. '"}')
end
"#;

/// Ends a script that hands back the decoded model.
pub const EMBEDDABLE_TAIL: &'static str = "\nreturn decode(payloadBuffer):GetChildren()[1]\n";

/// Ends a script that runs the decoded module.
pub const FULL_SCRIPT_TAIL: &'static str = "\nreturn require(decode(payloadBuffer):GetChildren()[1])\n";

/// The script for the tree under `root`, before its final statement: the
/// decoder for the tree's kinds, flags and modules, then the payload
/// compressed at `level`, packed with Base122 into a string literal, and the
/// code that unpacks it.
pub open spec fn script_body(root: Node, base: Requirements, level: u8) -> Seq<char> {
    let payload = node_enc(root, seq![]).0;
    let table = node_enc(root, seq![]).1;
    decoder_source(
        Requirements { bits: base.bits | implicit_bits(root) },
        used_ids(root),
        module_sources(root, table),
    ) + COMBINATOR_HEAD@ + decode_utf8(encoded(zstd_frame(payload, level))) + COMBINATOR_TAIL@
}

/// The decoder for `options`, then the packed `compressed` payload in a
/// string literal and the code that unpacks it.
pub fn script_from_compressed(options: &Options, compressed: &[u8]) -> (r: String)
    ensures
        r@ == decoder_source(
            options.generation_requirements,
            options.known_needed_type_ids.view(),
            options.module_script_sources@,
        ) + COMBINATOR_HEAD@ + decode_utf8(encoded(compressed@)) + COMBINATOR_TAIL@,
{
    let mut output = generate_with_options(options);
    let packed = encode(compressed);
    proof {
        lemma_encoded_is_utf8(compressed@);
    }
    match utf8_string(packed) {
        Some(text) => {
            output.append(COMBINATOR_HEAD);
            output.append(text.as_str());
            output.append(COMBINATOR_TAIL);
        },
        None => {},
    }
    output
}

fn internal_create_script(root: &Node, base_requirements: Requirements, level: u8) -> (r: Result<String, ScriptError>)
    ensures
        r is Ok <==> fits(*root),
        r matches Ok(s) ==> s@ == script_body(*root, base_requirements, level),
        r matches Err(e) ==> e == ScriptError::TooManyProperties,
{
    let mut encoded_dom: Vec<u8> = Vec::new();
    let options = match encode_for_decoder(root, &mut encoded_dom, base_requirements) {
        Ok(options) => options,
        Err(EncodeError::TooManyProperties) => {
            return Err(ScriptError::TooManyProperties);
        },
    };
    assert(encoded_dom@ =~= node_enc(*root, seq![]).0);
    let compressed = compress(&encoded_dom, level).unwrap();
    Ok(script_from_compressed(&options, compressed.as_slice()))
}

/// A script that decodes the tree under `root` and returns the root's first
/// child. It is made exactly when every node fits the format.
pub fn generate_embeddable_script(root: &Node, base_requirements: Requirements, level: u8) -> (r: Result<String, ScriptError>)
    ensures
        r is Ok <==> fits(*root),
        r matches Ok(s) ==> s@ == script_body(*root, base_requirements, level) + EMBEDDABLE_TAIL@,
        r matches Err(e) ==> e == ScriptError::TooManyProperties,
{
    let mut output = internal_create_script(root, base_requirements, level)?;
    output.append(EMBEDDABLE_TAIL);
    Ok(output)
}

/// A script that decodes the tree under `root`, whose only child must be a
/// `ModuleScript`, and returns what requiring that module returns. It is made
/// exactly when the root has that shape and every node fits the format.
pub fn generate_full_script(root: &Node, base_requirements: Requirements, level: u8) -> (r: Result<String, ScriptError>)
    ensures
        r is Ok <==> (root.children.len() == 1 && root.children@[0].class@ == "ModuleScript"@ && fits(*root)),
        r == Err::<String, ScriptError>(ScriptError::RootNotSingleModule) <==> !(root.children.len() == 1
            && root.children@[0].class@ == "ModuleScript"@),
        r == Err::<String, ScriptError>(ScriptError::TooManyProperties) <==> (root.children.len() == 1
            && root.children@[0].class@ == "ModuleScript"@ && !fits(*root)),
        r matches Ok(s) ==> s@ == script_body(*root, base_requirements, level) + FULL_SCRIPT_TAIL@,
{
    let module_name = String::from_str("ModuleScript");
    if root.children.len() != 1 || root.children[0].class != module_name {
        return Err(ScriptError::RootNotSingleModule);
    }
    let mut output = internal_create_script(root, base_requirements, level)?;
    output.append(FULL_SCRIPT_TAIL);
    Ok(output)
}

} // verus!
