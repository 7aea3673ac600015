use vstd::prelude::*;

verus! {

use crate::consts::{SECTION_CODE, SECTION_FUNCTION, SECTION_TYPE, TYPE_FUNC, TYPE_I32, TYPE_I64};
use crate::error::KedgeError;
use crate::module::{Function, Module};
use crate::reader::{Reader, lemma_u32_leb_size, rest_of, u32_leb};
use crate::types::{FuncType, ValType};
use vstd::slice::slice_to_vec;

/// A function signature as values: parameter types and result types.
pub type SigModel = (Seq<ValType>, Seq<ValType>);

/// A function as values: its type index and its body.
pub type FuncModel = (usize, Seq<u8>);

/// The signatures of a type table.
pub open spec fn sigs_of(types: Seq<FuncType>) -> Seq<SigModel> {
    types.map_values(|t: FuncType| (t.params@, t.results@))
}

/// The functions of a function table.
pub open spec fn funcs_of(functions: Seq<Function>) -> Seq<FuncModel> {
    functions.map_values(|f: Function| (f.type_index, f.body@))
}

/// A module as values: its signatures and its functions.
pub open spec fn module_view(m: Module) -> (Seq<SigModel>, Seq<FuncModel>) {
    (sigs_of(m.types@), funcs_of(m.functions@))
}

/// The value type of a tag byte.
pub open spec fn valtype_of(b: u8) -> Result<ValType, KedgeError> {
    if b == TYPE_I32 {
        Ok(ValType::I32)
    } else if b == TYPE_I64 {
        Ok(ValType::I64)
    } else {
        Err(KedgeError::DecodeError("Unsupported value type"))
    }
}

/// Reads `k` value-type bytes of `d` from `pos`, after those in `acc`: all of
/// them, and the position after the last.
pub open spec fn parse_valtypes(d: Seq<u8>, pos: nat, k: nat, acc: Seq<ValType>) -> Result<
    (Seq<ValType>, nat),
    KedgeError,
>
    decreases k,
{
    if k == 0 {
        Ok((acc, pos))
    } else if pos >= d.len() {
        Err(KedgeError::DecodeError("EOF reached"))
    } else {
        match valtype_of(d[pos as int]) {
            Err(e) => Err(e),
            Ok(t) => parse_valtypes(d, pos + 1, (k - 1) as nat, acc.push(t)),
        }
    }
}

/// Reads a counted vector of value types of `d` from `pos`.
pub open spec fn parse_valtype_vec(d: Seq<u8>, pos: nat) -> Result<(Seq<ValType>, nat), KedgeError> {
    match u32_leb(rest_of(d, pos)) {
        Err(e) => Err(e),
        Ok((count, n)) => parse_valtypes(d, pos + n, count as nat, Seq::empty()),
    }
}

/// Reads one function type of `d` from `pos`: its form byte, its parameter
/// types and its result types.
pub open spec fn parse_functype(d: Seq<u8>, pos: nat) -> Result<(SigModel, nat), KedgeError> {
    if pos >= d.len() {
        Err(KedgeError::DecodeError("EOF reached"))
    } else if d[pos as int] != TYPE_FUNC {
        Err(KedgeError::DecodeError("Expected function type (0x60)"))
    } else {
        match parse_valtype_vec(d, pos + 1) {
            Err(e) => Err(e),
            Ok((params, p1)) => match parse_valtype_vec(d, p1) {
                Err(e) => Err(e),
                Ok((results, p2)) => Ok(((params, results), p2)),
            },
        }
    }
}

/// Reads `k` function types of `d` from `pos`, after those in `acc`.
pub open spec fn parse_functypes(d: Seq<u8>, pos: nat, k: nat, acc: Seq<SigModel>) -> Result<
    Seq<SigModel>,
    KedgeError,
>
    decreases k,
{
    if k == 0 {
        Ok(acc)
    } else {
        match parse_functype(d, pos) {
            Err(e) => Err(e),
            Ok((sig, p)) => parse_functypes(d, p, (k - 1) as nat, acc.push(sig)),
        }
    }
}

/// The signatures that a type section's payload declares.
pub open spec fn type_section(d: Seq<u8>) -> Result<Seq<SigModel>, KedgeError> {
    match u32_leb(d) {
        Err(e) => Err(e),
        Ok((count, n)) => parse_functypes(d, n, count as nat, Seq::empty()),
    }
}

/// Reads `k` LEB128 type indices of `d` from `pos`, after those in `acc`.
pub open spec fn parse_indices(d: Seq<u8>, pos: nat, k: nat, acc: Seq<usize>) -> Result<
    Seq<usize>,
    KedgeError,
>
    decreases k,
{
    if k == 0 {
        Ok(acc)
    } else {
        match u32_leb(rest_of(d, pos)) {
            Err(e) => Err(e),
            Ok((v, n)) => parse_indices(d, pos + n, (k - 1) as nat, acc.push(v as usize)),
        }
    }
}

/// The type indices that a function section's payload declares.
pub open spec fn function_section(d: Seq<u8>) -> Result<Seq<usize>, KedgeError> {
    match u32_leb(d) {
        Err(e) => Err(e),
        Ok((count, n)) => parse_indices(d, n, count as nat, Seq::empty()),
    }
}

/// Reads `k` size-prefixed bodies of `d` from `pos`, after those in `acc`.
pub open spec fn parse_bodies(d: Seq<u8>, pos: nat, k: nat, acc: Seq<Seq<u8>>) -> Result<
    Seq<Seq<u8>>,
    KedgeError,
>
    decreases k,
{
    if k == 0 {
        Ok(acc)
    } else {
        match u32_leb(rest_of(d, pos)) {
            Err(e) => Err(e),
            Ok((size, n)) => if pos + n + size <= d.len() {
                parse_bodies(
                    d,
                    (pos + n + size) as nat,
                    (k - 1) as nat,
                    acc.push(d.subrange((pos + n) as int, pos + n + size)),
                )
            } else {
                Err(KedgeError::DecodeError("not enough bytes"))
            },
        }
    }
}

/// The raw bodies that a code section's payload declares.
pub open spec fn code_section(d: Seq<u8>) -> Result<Seq<Seq<u8>>, KedgeError> {
    match u32_leb(d) {
        Err(e) => Err(e),
        Ok((count, n)) => parse_bodies(d, n, count as nat, Seq::empty()),
    }
}

/// What the sections of `b` from `pos` on declare, on top of what came
/// before (`sigs`, `indices`, `bodies`): a type section adds signatures, a
/// function section or a code section replaces the indices or the bodies,
/// and any other section is skipped.
pub open spec fn parse_sections(
    b: Seq<u8>,
    pos: nat,
    sigs: Seq<SigModel>,
    indices: Seq<usize>,
    bodies: Seq<Seq<u8>>,
) -> Result<(Seq<SigModel>, Seq<usize>, Seq<Seq<u8>>), KedgeError>
    decreases b.len() - pos,
{
    if pos >= b.len() {
        Ok((sigs, indices, bodies))
    } else {
        let id = b[pos as int];
        match u32_leb(rest_of(b, pos + 1)) {
            Err(e) => Err(e),
            Ok((size, n)) => {
                let start = pos + 1 + n;
                if start + size > b.len() {
                    Err(KedgeError::DecodeError("not enough bytes"))
                } else {
                    let data = b.subrange(start as int, start + size);
                    let next = (start + size) as nat;
                    if id == SECTION_TYPE {
                        match type_section(data) {
                            Err(e) => Err(e),
                            Ok(ts) => parse_sections(b, next, sigs + ts, indices, bodies),
                        }
                    } else if id == SECTION_FUNCTION {
                        match function_section(data) {
                            Err(e) => Err(e),
                            Ok(ix) => parse_sections(b, next, sigs, ix, bodies),
                        }
                    } else if id == SECTION_CODE {
                        match code_section(data) {
                            Err(e) => Err(e),
                            Ok(bs) => parse_sections(b, next, sigs, indices, bs),
                        }
                    } else {
                        parse_sections(b, next, sigs, indices, bodies)
                    }
                }
            },
        }
    }
}

/// The magic bytes that open a module.
pub open spec fn magic() -> Seq<u8> {
    seq![0x00u8, 0x61u8, 0x73u8, 0x6Du8]
}

/// The only version accepted.
pub open spec fn version() -> Seq<u8> {
    seq![0x01u8, 0x00u8, 0x00u8, 0x00u8]
}

/// Whether every type index names one of `n` signatures.
pub open spec fn indices_in_range(indices: Seq<usize>, n: nat) -> bool {
    forall|i: int| 0 <= i < indices.len() ==> #[trigger] indices[i] < n
}

/// The module that `b` encodes: its signatures, and one function for each
/// position of the function and code sections, which must be of equal length
/// and whose type indices must each name a signature.
pub open spec fn parse_spec(b: Seq<u8>) -> Result<(Seq<SigModel>, Seq<FuncModel>), KedgeError> {
    if b.len() < 4 {
        Err(KedgeError::DecodeError("not enough bytes"))
    } else if b.subrange(0, 4) != magic() {
        Err(KedgeError::DecodeError("Invalid WASM magic header"))
    } else if b.len() < 8 {
        Err(KedgeError::DecodeError("not enough bytes"))
    } else if b.subrange(4, 8) != version() {
        Err(KedgeError::DecodeError("Unsupported WASM version"))
    } else {
        match parse_sections(b, 8, Seq::empty(), Seq::empty(), Seq::empty()) {
            Err(e) => Err(e),
            Ok((sigs, indices, bodies)) => if indices.len() != bodies.len() {
                Err(KedgeError::DecodeError("Mismatch between function and code sections"))
            } else if !indices_in_range(indices, sigs.len()) {
                Err(KedgeError::DecodeError("Function type index out of range"))
            } else {
                Ok((sigs, Seq::new(bodies.len(), |i: int| (indices[i], bodies[i]))))
            },
        }
    }
}

/// Whether `b` opens with the magic bytes and the supported version.
pub open spec fn has_header(b: Seq<u8>) -> bool {
    b.len() >= 8 && b.subrange(0, 4) == magic() && b.subrange(4, 8) == version()
}

/// A buffer that does not open with the magic bytes and the version fails
/// to decode with a decode error, decided by its first eight bytes alone: no
/// section is looked at.
pub proof fn lemma_bad_header_rejected(b: Seq<u8>, tail: Seq<u8>)
    requires
        !has_header(b),
    ensures
        parse_spec(b) matches Err(KedgeError::DecodeError(_)),
        b.len() >= 8 ==> parse_spec(b + tail) == parse_spec(b),
{
    if b.len() >= 8 {
        assert((b + tail).subrange(0, 4) =~= b.subrange(0, 4));
        assert((b + tail).subrange(4, 8) =~= b.subrange(4, 8));
    }
}

/// With a valid header, sections that declare as many type indices as code
/// bodies, each index naming a declared signature, decode into one function
/// per position, pairing the two; other counts, or an index past the
/// signatures, make decoding fail with a decode error.
pub proof fn lemma_function_code_pairing(b: Seq<u8>)
    requires
        has_header(b),
    ensures
        parse_sections(b, 8, Seq::empty(), Seq::empty(), Seq::empty()) matches Ok(
            (sigs, indices, bodies),
        ) ==> {
            &&& indices.len() != bodies.len() ==> parse_spec(b) == Err::<
                (Seq<SigModel>, Seq<FuncModel>),
                KedgeError,
            >(KedgeError::DecodeError("Mismatch between function and code sections"))
            &&& indices.len() == bodies.len() && !indices_in_range(indices, sigs.len())
                ==> parse_spec(b) == Err::<(Seq<SigModel>, Seq<FuncModel>), KedgeError>(
                KedgeError::DecodeError("Function type index out of range"),
            )
            &&& indices.len() == bodies.len() && indices_in_range(indices, sigs.len()) ==> (
            parse_spec(b) matches Ok((s, fs)) && s == sigs && fs.len() == indices.len() && forall|
                i: int,
            |
                0 <= i < fs.len() ==> #[trigger] fs[i] == (indices[i], bodies[i]) && indices[i]
                    < sigs.len())
        },
{
}

/// Every function of a decoded module names one of its signatures.
pub proof fn lemma_decoded_type_indices_in_range(b: Seq<u8>)
    ensures
        parse_spec(b) matches Ok((sigs, fs)) ==> forall|i: int|
            0 <= i < fs.len() ==> (#[trigger] fs[i]).0 < sigs.len(),
{
    if parse_spec(b) is Ok {
        let (sigs, indices, bodies) = parse_sections(
            b,
            8,
            Seq::empty(),
            Seq::empty(),
            Seq::empty(),
        )->Ok_0;
        let fs = parse_spec(b)->Ok_0.1;
        assert forall|i: int| 0 <= i < fs.len() implies (#[trigger] fs[i]).0 < sigs.len() by {
            assert(fs[i] == (indices[i], bodies[i]));
        }
    }
}

/// Decodes a module from `bytes`: header, then sections, then functions made
/// of the function section's type indices and the code section's bodies,
/// pairwise by position.
pub fn parse_module(bytes: &[u8]) -> (r: Result<Module, KedgeError>)
    ensures
        match parse_spec(bytes@) {
            Ok(v) => r is Ok && module_view(r->Ok_0) == v,
            Err(e) => r == Err::<Module, KedgeError>(e),
        },
        r is Ok ==> r->Ok_0.start_function is None && forall|i: int|
            0 <= i < r->Ok_0.functions@.len() ==> (#[trigger] r->Ok_0.functions@[i]).locals@.len()
                == 0,
{
    let ghost b = bytes@;
    let mut reader = Reader::new(bytes);
    let mut module = Module::new();

    let magic_bytes = reader.read_bytes(4)?;
    if !(magic_bytes[0] == 0x00 && magic_bytes[1] == 0x61 && magic_bytes[2] == 0x73
        && magic_bytes[3] == 0x6D) {
        assert(b.subrange(0, 4)[0] == magic_bytes@[0]);
        assert(b.subrange(0, 4) != magic());
        return Err(KedgeError::DecodeError("Invalid WASM magic header"));
    }
    assert(b.subrange(0, 4) =~= magic());
    let version_bytes = reader.read_bytes(4)?;
    if !(version_bytes[0] == 0x01 && version_bytes[1] == 0x00 && version_bytes[2] == 0x00
        && version_bytes[3] == 0x00) {
        assert(b.subrange(4, 8) != version());
        return Err(KedgeError::DecodeError("Unsupported WASM version"));
    }
    assert(b.subrange(4, 8) =~= version());

    let mut func_type_indices: Vec<usize> = Vec::new();
    let mut raw_code_bodies: Vec<Vec<u8>> = Vec::new();
    proof {
        assert(sigs_of(module.types@) =~= Seq::<SigModel>::empty());
        assert(bodies_of(raw_code_bodies@) =~= Seq::<Seq<u8>>::empty());
    }

    while !reader.is_done()
        invariant
            b == bytes@,
            reader.bytes@ == b,
            8 <= reader.position <= b.len(),
            b.len() >= 8,
            b.subrange(0, 4) == magic(),
            b.subrange(4, 8) == version(),
            module.functions@.len() == 0,
            module.start_function is None,
            parse_sections(b, 8, Seq::empty(), Seq::empty(), Seq::empty()) == parse_sections(
                b,
                reader.position as nat,
                sigs_of(module.types@),
                func_type_indices@,
                bodies_of(raw_code_bodies@),
            ),
        decreases b.len() - reader.position,
    {
        let section_id = reader.read_u8()?;
        proof {
            lemma_u32_leb_size(reader.remaining(), 0, 0);
        }
        let section_size = reader.read_u32_leb128()? as usize;
        let section_data = reader.read_bytes(section_size)?;
        match section_id {
            SECTION_TYPE => parse_type_section(section_data, &mut module)?,
            SECTION_FUNCTION => {
                func_type_indices = parse_function_section(section_data)?;
            },
            SECTION_CODE => {
                raw_code_bodies = parse_code_section(section_data)?;
            },
            _ => {},
        }
    }

    if func_type_indices.len() != raw_code_bodies.len() {
        return Err(KedgeError::DecodeError("Mismatch between function and code sections"));
    }

    let ghost sigs = sigs_of(module.types@);
    let mut i: usize = 0;
    while i < raw_code_bodies.len()
        invariant
            b == bytes@,
            parse_sections(b, 8, Seq::empty(), Seq::empty(), Seq::empty()) == Ok::<
                (Seq<SigModel>, Seq<usize>, Seq<Seq<u8>>),
                KedgeError,
            >((sigs, func_type_indices@, bodies_of(raw_code_bodies@))),
            b.len() >= 8,
            b.subrange(0, 4) == magic(),
            b.subrange(4, 8) == version(),
            func_type_indices@.len() == raw_code_bodies@.len(),
            i <= raw_code_bodies@.len(),
            sigs_of(module.types@) == sigs,
            module.start_function is None,
            forall|j: int| 0 <= j < i ==> #[trigger] func_type_indices@[j] < sigs.len(),
            forall|j: int|
                0 <= j < module.functions@.len() ==> (#[trigger] module.functions@[j]).locals@.len()
                    == 0,
            funcs_of(module.functions@) =~= Seq::new(
                i as nat,
                |j: int| (func_type_indices@[j], raw_code_bodies@[j]@),
            ),
        decreases raw_code_bodies@.len() - i,
    {
        if func_type_indices[i] >= module.types.len() {
            assert(sigs.len() == module.types@.len());
            assert(func_type_indices@[i as int] >= sigs.len());
            assert(!indices_in_range(func_type_indices@, sigs.len()));
            return Err(KedgeError::DecodeError("Function type index out of range"));
        }
        let body = slice_to_vec(raw_code_bodies[i].as_slice());
        let ghost prev = module.functions@;
        module.add_function(func_type_indices[i], body);
        proof {
            assert(funcs_of(module.functions@) =~= funcs_of(prev).push(
                (func_type_indices@[i as int], raw_code_bodies@[i as int]@),
            ));
        }
        i = i + 1;
    }
    proof {
        assert(funcs_of(module.functions@) =~= Seq::new(
            bodies_of(raw_code_bodies@).len(),
            |j: int| (func_type_indices@[j], bodies_of(raw_code_bodies@)[j]),
        ));
    }
    Ok(module)
}

/// Decodes a type section's payload and appends its signatures to `module`.
fn parse_type_section(data: &[u8], module: &mut Module) -> (r: Result<(), KedgeError>)
    ensures
        final(module).functions@ == old(module).functions@,
        final(module).start_function == old(module).start_function,
        match type_section(data@) {
            Ok(ts) => r is Ok && sigs_of(final(module).types@) == sigs_of(old(module).types@)
                + ts,
            Err(e) => r == Err::<(), KedgeError>(e),
        },
{
    let ghost d = data@;
    let ghost base = old(module).types@.len();
    let mut r = Reader::new(data);
    proof {
        assert(r.remaining() =~= d);
        lemma_u32_leb_size(d, 0, 0);
    }
    let count = r.read_u32_leb128()? as usize;
    let ghost n0 = r.position as nat;
    proof {
        assert(sigs_of(module.types@).skip(base as int) =~= Seq::<SigModel>::empty());
    }
    let mut k: usize = 0;
    while k < count
        invariant
            d == data@,
            r.bytes@ == d,
            r.position <= d.len(),
            k <= count,
            module.functions@ == old(module).functions@,
            module.start_function == old(module).start_function,
            module.types@.len() >= base,
            module.types@.subrange(0, base as int) == old(module).types@,
            type_section(d) == parse_functypes(
                d,
                r.position as nat,
                (count - k) as nat,
                sigs_of(module.types@).skip(base as int),
            ),
        decreases count - k,
    {
        let form = r.read_u8()?;
        if form != TYPE_FUNC {
            return Err(KedgeError::DecodeError("Expected function type (0x60)"));
        }
        let params = read_valtype_vec(&mut r)?;
        let results = read_valtype_vec(&mut r)?;
        let ghost prev = module.types@;
        module.types.push(FuncType::new(params, results));
        proof {
            assert(module.types@.subrange(0, base as int) =~= prev.subrange(0, base as int));
            assert(sigs_of(module.types@).skip(base as int) =~= sigs_of(prev).skip(
                base as int,
            ).push((params@, results@)));
        }
        k = k + 1;
    }
    proof {
        assert(sigs_of(module.types@) =~= sigs_of(old(module).types@) + sigs_of(
            module.types@,
        ).skip(base as int));
    }
    Ok(())
}

/// Reads a counted vector of value types.
fn read_valtype_vec(r: &mut Reader) -> (res: Result<Vec<ValType>, KedgeError>)
    requires
        old(r).position <= old(r).bytes@.len(),
    ensures
        final(r).bytes == old(r).bytes,
        final(r).position <= final(r).bytes@.len(),
        match parse_valtype_vec(old(r).bytes@, old(r).position as nat) {
            Ok((ts, p)) => res is Ok && res->Ok_0@ == ts && final(r).position == p,
            Err(e) => res == Err::<Vec<ValType>, KedgeError>(e),
        },
{
    let ghost d = r.bytes@;
    proof {
        lemma_u32_leb_size(r.remaining(), 0, 0);
    }
    let count = r.read_u32_leb128()? as usize;
    let mut types: Vec<ValType> = Vec::new();
    let mut k: usize = 0;
    while k < count
        invariant
            r.bytes@ == d,
            r.bytes == old(r).bytes,
            r.position <= d.len(),
            k <= count,
            parse_valtype_vec(d, old(r).position as nat) == parse_valtypes(
                d,
                r.position as nat,
                (count - k) as nat,
                types@,
            ),
        decreases count - k,
    {
        let val_type = parse_valtype(r.read_u8()?)?;
        types.push(val_type);
        k = k + 1;
    }
    Ok(types)
}

/// Decodes a function section's payload: the type index of each function.
fn parse_function_section(data: &[u8]) -> (res: Result<Vec<usize>, KedgeError>)
    ensures
        match function_section(data@) {
            Ok(ix) => res is Ok && res->Ok_0@ == ix,
            Err(e) => res == Err::<Vec<usize>, KedgeError>(e),
        },
{
    let ghost d = data@;
    let mut r = Reader::new(data);
    proof {
        assert(r.remaining() =~= d);
        lemma_u32_leb_size(d, 0, 0);
    }
    let count = r.read_u32_leb128()? as usize;
    let mut type_indices: Vec<usize> = Vec::new();
    let mut k: usize = 0;
    while k < count
        invariant
            d == data@,
            r.bytes@ == d,
            r.position <= d.len(),
            k <= count,
            function_section(d) == parse_indices(
                d,
                r.position as nat,
                (count - k) as nat,
                type_indices@,
            ),
        decreases count - k,
    {
        proof {
            lemma_u32_leb_size(r.remaining(), 0, 0);
        }
        let index = r.read_u32_leb128()? as usize;
        type_indices.push(index);
        k = k + 1;
    }
    Ok(type_indices)
}

/// The contents of a list of byte vectors.
pub open spec fn bodies_of(v: Seq<Vec<u8>>) -> Seq<Seq<u8>> {
    v.map_values(|b: Vec<u8>| b@)
}

/// Decodes a code section's payload: the raw body of each function.
fn parse_code_section(data: &[u8]) -> (res: Result<Vec<Vec<u8>>, KedgeError>)
    ensures
        match code_section(data@) {
            Ok(bs) => res is Ok && bodies_of(res->Ok_0@) == bs,
            Err(e) => res == Err::<Vec<Vec<u8>>, KedgeError>(e),
        },
{
    let ghost d = data@;
    let mut r = Reader::new(data);
    proof {
        assert(r.remaining() =~= d);
        lemma_u32_leb_size(d, 0, 0);
    }
    let count = r.read_u32_leb128()? as usize;
    let mut bodies: Vec<Vec<u8>> = Vec::new();
    proof {
        assert(bodies_of(bodies@) =~= Seq::<Seq<u8>>::empty());
    }
    let mut k: usize = 0;
    while k < count
        invariant
            d == data@,
            r.bytes@ == d,
            r.position <= d.len(),
            k <= count,
            code_section(d) == parse_bodies(
                d,
                r.position as nat,
                (count - k) as nat,
                bodies_of(bodies@),
            ),
        decreases count - k,
    {
        proof {
            lemma_u32_leb_size(r.remaining(), 0, 0);
        }
        let body_size = r.read_u32_leb128()? as usize;
        let body = slice_to_vec(r.read_bytes(body_size)?);
        let ghost prev = bodies@;
        bodies.push(body);
        proof {
            assert(bodies_of(bodies@) =~= bodies_of(prev).push(body@));
        }
        k = k + 1;
    }
    Ok(bodies)
}

/// Decodes a value-type tag byte.
fn parse_valtype(byte: u8) -> (r: Result<ValType, KedgeError>)
    ensures
        r == valtype_of(byte),
{
    match byte {
        TYPE_I32 => Ok(ValType::I32),
        TYPE_I64 => Ok(ValType::I64),
        _ => Err(KedgeError::DecodeError("Unsupported value type")),
    }
}

} // verus!
