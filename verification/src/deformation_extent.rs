//! A deformation network fills its file exactly: what is cut off or added is noticed.

use crate::deformation_errors::{DeformationError, FormatFault, MlpName};
use vstd::prelude::*;

verus! {

/// The file ended before its time.
pub open spec fn ended_early<T>(r: Result<T, DeformationError>) -> bool {
    r matches Err(DeformationError::UnexpectedEof { .. })
}

/// Where reading `b` goes well, reading its prefix `a` gives the same if `a` holds all of it, and
/// ends early if not; what `a` holds, `b` holds.
spec fn follows<T>(
    a: Result<(T, int), DeformationError>,
    b: Result<(T, int), DeformationError>,
    at: int,
    len: int,
) -> bool {
    &&& a matches Ok((_, end)) ==> b == a && at <= end <= len
    &&& b matches Ok((_, end)) ==> at <= end && if end <= len {
        a == b
    } else {
        ended_early(a)
    }
}

proof fn same_number(a: Seq<u8>, b: Seq<u8>, at: int)
    requires
        a.is_prefix_of(b),
        0 <= at,
        at + 4 <= a.len(),
    ensures
        crate::bytes::le_u32(a, at) == crate::bytes::le_u32(b, at),
{
    assert(b.take(a.len() as int) =~= a);
    assert(forall|i: int| 0 <= i < a.len() ==> a[i] == b.take(a.len() as int)[i]);
}

proof fn same_run(a: Seq<u8>, b: Seq<u8>, at: int, count: nat)
    requires
        a.is_prefix_of(b),
        0 <= at,
        at + 4 * count <= a.len(),
    ensures
        crate::bytes::le_u32_run(a, at, count) == crate::bytes::le_u32_run(b, at, count),
{
    let x = crate::bytes::le_u32_run(a, at, count);
    let y = crate::bytes::le_u32_run(b, at, count);
    assert forall|i: int| 0 <= i < count implies x[i] == y[i] by {
        same_number(a, b, at + 4 * i);
    }
    assert(x =~= y);
}

proof fn layer_follows(a: Seq<u8>, b: Seq<u8>, at: int, mlp: MlpName, layer: int)
    requires
        a.is_prefix_of(b),
        0 <= at <= a.len(),
    ensures
        follows(
            crate::deformation::layer_at(a, at, mlp, layer),
            crate::deformation::layer_at(b, at, mlp, layer),
            at,
            a.len() as int,
        ),
{
    if at + 4 <= a.len() {
        same_number(a, b, at);
    }
    if at + 8 <= a.len() {
        same_number(a, b, at + 4);
    }
    if at + 12 <= a.len() {
        same_number(a, b, at + 8);
    }
    let inputs = crate::bytes::le_u32(b, at);
    let outputs = crate::bytes::le_u32(b, at + 4);
    assert(inputs * outputs >= 0) by (nonlinear_arith)
        requires
            inputs >= 0,
            outputs >= 0,
    ;
    let weights_end = at + 12 + 4 * (inputs * outputs);
    if at + 12 <= a.len() && weights_end + 4 * outputs <= a.len() {
        same_run(a, b, at + 12, (inputs * outputs) as nat);
        same_run(a, b, weights_end, outputs as nat);
    }
}

proof fn layers_follow(a: Seq<u8>, b: Seq<u8>, at: int, mlp: MlpName, n: nat)
    requires
        a.is_prefix_of(b),
        0 <= at <= a.len(),
    ensures
        follows(
            crate::deformation::layers_before(a, at, mlp, n),
            crate::deformation::layers_before(b, at, mlp, n),
            at,
            a.len() as int,
        ),
    decreases n,
{
    if n > 0 {
        layers_follow(a, b, at, mlp, (n - 1) as nat);
        if let Ok((_, next)) = crate::deformation::layers_before(b, at, mlp, (n - 1) as nat) {
            if next <= a.len() {
                layer_follows(a, b, next, mlp, n - 1);
            } else {
                layer_goes_on(b, next, mlp, n - 1);
            }
        }
    }
}

/// A layer ends behind its start.
proof fn layer_goes_on(bytes: Seq<u8>, at: int, mlp: MlpName, layer: int)
    ensures
        crate::deformation::layer_at(bytes, at, mlp, layer) matches Ok((_, end)) ==> at <= end,
{
    let inputs = crate::bytes::le_u32(bytes, at);
    let outputs = crate::bytes::le_u32(bytes, at + 4);
    assert(inputs * outputs >= 0) by (nonlinear_arith)
        requires
            inputs >= 0,
            outputs >= 0,
    ;
}

proof fn mlp_follows(a: Seq<u8>, b: Seq<u8>, at: int, mlp: MlpName)
    requires
        a.is_prefix_of(b),
        0 <= at <= a.len(),
    ensures
        follows(
            crate::deformation::mlp_at(a, at, mlp),
            crate::deformation::mlp_at(b, at, mlp),
            at,
            a.len() as int,
        ),
{
    if at + 4 <= a.len() {
        same_number(a, b, at);
        layers_follow(a, b, at + 4, mlp, crate::bytes::le_u32(b, at) as nat);
    } else if at + 4 <= b.len() {
        layers_go_on(b, at + 4, mlp, crate::bytes::le_u32(b, at) as nat);
    }
}

proof fn layers_go_on(bytes: Seq<u8>, at: int, mlp: MlpName, n: nat)
    ensures
        crate::deformation::layers_before(bytes, at, mlp, n) matches Ok((_, end)) ==> at <= end,
    decreases n,
{
    if n > 0 {
        layers_go_on(bytes, at, mlp, (n - 1) as nat);
        if let Ok((_, next)) = crate::deformation::layers_before(bytes, at, mlp, (n - 1) as nat) {
            layer_goes_on(bytes, next, mlp, n - 1);
        }
    }
}

/// A plane ends behind its start.
proof fn plane_goes_on(bytes: Seq<u8>, at: int, channels: usize, level: int, plane: int)
    ensures
        crate::deformation::plane_at(bytes, at, channels, level, plane) matches Ok((_, end)) ==> at
            <= end,
{
    let height = crate::bytes::le_u32(bytes, at);
    let width = crate::bytes::le_u32(bytes, at + 4);
    assert(channels * height * width >= 0) by (nonlinear_arith)
        requires
            channels >= 0,
            height >= 0,
            width >= 0,
    ;
}

proof fn plane_follows(a: Seq<u8>, b: Seq<u8>, at: int, channels: usize, level: int, plane: int)
    requires
        a.is_prefix_of(b),
        0 <= at <= a.len(),
    ensures
        follows(
            crate::deformation::plane_at(a, at, channels, level, plane),
            crate::deformation::plane_at(b, at, channels, level, plane),
            at,
            a.len() as int,
        ),
{
    if at + 4 <= a.len() {
        same_number(a, b, at);
    }
    if at + 8 <= a.len() {
        same_number(a, b, at + 4);
    }
    plane_goes_on(b, at, channels, level, plane);
    let values = channels * crate::bytes::le_u32(b, at) * crate::bytes::le_u32(b, at + 4);
    assert(values >= 0) by (nonlinear_arith)
        requires
            values == channels * crate::bytes::le_u32(b, at) * crate::bytes::le_u32(b, at + 4),
    ;
    if at + 8 <= a.len() && at + 8 + 4 * values <= a.len() {
        same_run(a, b, at + 8, values as nat);
    }
}

proof fn planes_follow(a: Seq<u8>, b: Seq<u8>, at: int, channels: usize, level: int, n: nat)
    requires
        a.is_prefix_of(b),
        0 <= at <= a.len(),
    ensures
        follows(
            crate::deformation::planes_before(a, at, channels, level, n),
            crate::deformation::planes_before(b, at, channels, level, n),
            at,
            a.len() as int,
        ),
    decreases n,
{
    if n > 0 {
        planes_follow(a, b, at, channels, level, (n - 1) as nat);
        if let Ok((_, next)) = crate::deformation::planes_before(
            b,
            at,
            channels,
            level,
            (n - 1) as nat,
        ) {
            if next <= a.len() {
                plane_follows(a, b, next, channels, level, n - 1);
            } else {
                plane_goes_on(b, next, channels, level, n - 1);
            }
        }
    }
}

proof fn planes_go_on(bytes: Seq<u8>, at: int, channels: usize, level: int, n: nat)
    ensures
        crate::deformation::planes_before(bytes, at, channels, level, n) matches Ok((_, end))
            ==> at <= end,
    decreases n,
{
    if n > 0 {
        planes_go_on(bytes, at, channels, level, (n - 1) as nat);
        if let Ok((_, next)) = crate::deformation::planes_before(
            bytes,
            at,
            channels,
            level,
            (n - 1) as nat,
        ) {
            plane_goes_on(bytes, next, channels, level, n - 1);
        }
    }
}

proof fn levels_follow(a: Seq<u8>, b: Seq<u8>, at: int, channels: usize, n: nat)
    requires
        a.is_prefix_of(b),
        0 <= at <= a.len(),
    ensures
        follows(
            crate::deformation::levels_before(a, at, channels, n),
            crate::deformation::levels_before(b, at, channels, n),
            at,
            a.len() as int,
        ),
    decreases n,
{
    if n > 0 {
        levels_follow(a, b, at, channels, (n - 1) as nat);
        if let Ok((_, next)) = crate::deformation::levels_before(b, at, channels, (n - 1) as nat) {
            let count = crate::deformation::PLANE_COUNT as nat;
            if next <= a.len() {
                planes_follow(a, b, next, channels, n - 1, count);
            } else {
                planes_go_on(b, next, channels, n - 1, count);
            }
        }
    }
}

proof fn same_header(a: Seq<u8>, b: Seq<u8>)
    requires
        a.is_prefix_of(b),
        a.len() >= crate::deformation::HEADER_SIZE,
    ensures
        crate::deformation::header_metadata(a) == crate::deformation::header_metadata(b),
        crate::deformation::header_error(a) == crate::deformation::header_error(b),
{
    assert(forall|i: int| 0 <= i < a.len() ==> a[i] == #[trigger] b.take(a.len() as int)[i]) by {
        assert(b.take(a.len() as int) =~= a);
    }
    assert forall|at: int| 0 <= at <= 68 implies #[trigger] crate::bytes::le_u32(a, at)
        == crate::bytes::le_u32(b, at) by {
        same_number(a, b, at);
    }
    assert(a[0] == b[0] && a[1] == b[1] && a[2] == b[2] && a[3] == b[3]);
}

/// Of a network that is accepted, every proper prefix ends early. The bounds, which `spans` comes
/// from, are the same as long as the header is whole.
pub proof fn cut_networks_end_early(
    bytes: Seq<u8>,
    spans: [u32; 3],
    n: int,
    prefix_spans: [u32; 3],
)
    requires
        crate::deformation::parsed_network(bytes, spans) is Ok,
        0 <= n < bytes.len(),
        prefix_spans == spans || n < crate::deformation::HEADER_SIZE,
    ensures
        crate::deformation::parsed_network(bytes.take(n), prefix_spans) matches Err(
            DeformationError::UnexpectedEof { .. },
        ),
{
    let a = bytes.take(n);
    assert(a.is_prefix_of(bytes));
    if n < crate::deformation::HEADER_SIZE {
        if n >= 8 {
            same_number(a, bytes, 4);
        }
    } else {
        same_header(a, bytes);
        let meta = crate::deformation::header_metadata(bytes);
        levels_follow(a, bytes, 72, meta.feature_dim, meta.n_grid_levels as nat);
        if let Ok((_, features)) = crate::deformation::levels_before(
            bytes,
            72,
            meta.feature_dim,
            meta.n_grid_levels as nat,
        ) {
            if features <= n {
                mlp_follows(a, bytes, features, MlpName::FeatureOut);
                if let Ok((_, pos)) = crate::deformation::mlp_at(
                    bytes,
                    features,
                    MlpName::FeatureOut,
                ) {
                    if pos <= n {
                        mlp_follows(a, bytes, pos, MlpName::PosDeform);
                        if let Ok((_, rotations)) = crate::deformation::mlp_at(
                            bytes,
                            pos,
                            MlpName::PosDeform,
                        ) {
                            if rotations <= n {
                                mlp_follows(a, bytes, rotations, MlpName::RotationsDeform);
                            }
                        }
                    }
                }
            }
        }
    }
}

/// A network that is accepted is refused once anything is added behind it.
pub proof fn longer_networks_are_refused(bytes: Seq<u8>, spans: [u32; 3], more: Seq<u8>)
    requires
        crate::deformation::parsed_network(bytes, spans) is Ok,
        0 < more.len() <= usize::MAX,
    ensures
        crate::deformation::parsed_network(bytes + more, spans) matches Err(
            DeformationError::InvalidFormat(FormatFault::TrailingBytes { count }),
        ) && count == more.len(),
{
    let b = bytes + more;
    assert(b.take(bytes.len() as int) =~= bytes);
    assert(bytes.is_prefix_of(b));
    same_header(bytes, b);
    let meta = crate::deformation::header_metadata(bytes);
    levels_follow(bytes, b, 72, meta.feature_dim, meta.n_grid_levels as nat);
    if let Ok((_, features)) = crate::deformation::levels_before(
        bytes,
        72,
        meta.feature_dim,
        meta.n_grid_levels as nat,
    ) {
        mlp_follows(bytes, b, features, MlpName::FeatureOut);
        if let Ok((_, pos)) = crate::deformation::mlp_at(bytes, features, MlpName::FeatureOut) {
            mlp_follows(bytes, b, pos, MlpName::PosDeform);
            if let Ok((_, rotations)) = crate::deformation::mlp_at(bytes, pos, MlpName::PosDeform) {
                mlp_follows(bytes, b, rotations, MlpName::RotationsDeform);
            }
        }
    }
}

/// Another tag in front is refused under its own name, whatever follows.
pub proof fn other_tags_are_refused(bytes: Seq<u8>, spans: [u32; 3], tag: [u8; 4])
    requires
        bytes.len() >= 4,
        tag@ != seq![0x44u8, 0x46, 0x57, 0x54],
    ensures
        crate::deformation::parsed_network(tag@ + bytes.skip(4), spans) == Err::<
            crate::deformation::NetworkModel,
            DeformationError,
        >(DeformationError::BadMagic(tag)),
{
    let b = tag@ + bytes.skip(4);
    assert(b[0] == tag[0] && b[1] == tag[1] && b[2] == tag[2] && b[3] == tag[3]);
    if crate::bytes::starts_with4(b, 0x44, 0x46, 0x57, 0x54) {
        assert(tag@ =~= seq![0x44u8, 0x46, 0x57, 0x54]);
    }
    assert([b[0], b[1], b[2], b[3]] =~= tag);
}

/// Another version is refused under its own number, whatever follows.
pub proof fn other_versions_are_refused(bytes: Seq<u8>, spans: [u32; 3], version: u32)
    requires
        bytes.len() >= 8,
        crate::bytes::starts_with4(bytes, 0x44, 0x46, 0x57, 0x54),
        version != 1,
    ensures
        crate::deformation::parsed_network(
            bytes.take(4) + crate::bytes::le_bytes(version) + bytes.skip(8),
            spans,
        ) == Err::<crate::deformation::NetworkModel, DeformationError>(
            DeformationError::UnsupportedVersion(version),
        ),
{
    let digits = crate::bytes::le_bytes(version);
    let b = bytes.take(4) + digits + bytes.skip(8);
    assert(b[0] == bytes[0] && b[1] == bytes[1] && b[2] == bytes[2] && b[3] == bytes[3]);
    assert(b[4] == digits[0] && b[5] == digits[1] && b[6] == digits[2] && b[7] == digits[3]);
    crate::bytes::le_bytes_round_trip(version);
    assert(crate::bytes::le_u32(b, 4) == crate::bytes::le_u32(digits, 0));
}

} // verus!
