//! The fixed byte strings of the transform: the styled wrapper's tags and
//! the default configuration values.

use vstd::prelude::*;

verus! {

/// Bytes of the tag that opens a styled private block: a bordered container
/// whose corner span carries the notice (`<blockquote style='position: relative; padding: 20px 20px;'><span style='position: absolute; top: 0; right: 5px; font-size: 80%; opacity: 0.4;'>`).
pub open spec fn style_open() -> Seq<u8> {
    seq![
        60u8, 98u8, 108u8, 111u8, 99u8, 107u8, 113u8, 117u8, 111u8, 116u8, 101u8, 32u8, 115u8,
        116u8, 121u8, 108u8, 101u8, 61u8, 39u8, 112u8, 111u8, 115u8, 105u8, 116u8, 105u8,
        111u8, 110u8, 58u8, 32u8, 114u8, 101u8, 108u8, 97u8, 116u8, 105u8, 118u8, 101u8, 59u8,
        32u8, 112u8, 97u8, 100u8, 100u8, 105u8, 110u8, 103u8, 58u8, 32u8, 50u8, 48u8, 112u8,
        120u8, 32u8, 50u8, 48u8, 112u8, 120u8, 59u8, 39u8, 62u8, 60u8, 115u8, 112u8, 97u8,
        110u8, 32u8, 115u8, 116u8, 121u8, 108u8, 101u8, 61u8, 39u8, 112u8, 111u8, 115u8, 105u8,
        116u8, 105u8, 111u8, 110u8, 58u8, 32u8, 97u8, 98u8, 115u8, 111u8, 108u8, 117u8, 116u8,
        101u8, 59u8, 32u8, 116u8, 111u8, 112u8, 58u8, 32u8, 48u8, 59u8, 32u8, 114u8, 105u8,
        103u8, 104u8, 116u8, 58u8, 32u8, 53u8, 112u8, 120u8, 59u8, 32u8, 102u8, 111u8, 110u8,
        116u8, 45u8, 115u8, 105u8, 122u8, 101u8, 58u8, 32u8, 56u8, 48u8, 37u8, 59u8, 32u8,
        111u8, 112u8, 97u8, 99u8, 105u8, 116u8, 121u8, 58u8, 32u8, 48u8, 46u8, 52u8, 59u8,
        39u8, 62u8,
    ]
}

/// Builds `style_open()` as a vector.
pub fn style_open_vec() -> (r: Vec<u8>)
    ensures
        r@ == style_open(),
{
    let v: Vec<u8> = vec![
        60u8, 98u8, 108u8, 111u8, 99u8, 107u8, 113u8, 117u8, 111u8, 116u8, 101u8, 32u8, 115u8,
        116u8, 121u8, 108u8, 101u8, 61u8, 39u8, 112u8, 111u8, 115u8, 105u8, 116u8, 105u8,
        111u8, 110u8, 58u8, 32u8, 114u8, 101u8, 108u8, 97u8, 116u8, 105u8, 118u8, 101u8, 59u8,
        32u8, 112u8, 97u8, 100u8, 100u8, 105u8, 110u8, 103u8, 58u8, 32u8, 50u8, 48u8, 112u8,
        120u8, 32u8, 50u8, 48u8, 112u8, 120u8, 59u8, 39u8, 62u8, 60u8, 115u8, 112u8, 97u8,
        110u8, 32u8, 115u8, 116u8, 121u8, 108u8, 101u8, 61u8, 39u8, 112u8, 111u8, 115u8, 105u8,
        116u8, 105u8, 111u8, 110u8, 58u8, 32u8, 97u8, 98u8, 115u8, 111u8, 108u8, 117u8, 116u8,
        101u8, 59u8, 32u8, 116u8, 111u8, 112u8, 58u8, 32u8, 48u8, 59u8, 32u8, 114u8, 105u8,
        103u8, 104u8, 116u8, 58u8, 32u8, 53u8, 112u8, 120u8, 59u8, 32u8, 102u8, 111u8, 110u8,
        116u8, 45u8, 115u8, 105u8, 122u8, 101u8, 58u8, 32u8, 56u8, 48u8, 37u8, 59u8, 32u8,
        111u8, 112u8, 97u8, 99u8, 105u8, 116u8, 121u8, 58u8, 32u8, 48u8, 46u8, 52u8, 59u8,
        39u8, 62u8,
    ];
    proof {
        assert(v@ =~= style_open());
    }
    v
}

/// Bytes of the tag that closes the notice span (`</span>`).
pub open spec fn span_close() -> Seq<u8> {
    seq![
        60u8, 47u8, 115u8, 112u8, 97u8, 110u8, 62u8,
    ]
}

/// Builds `span_close()` as a vector.
pub fn span_close_vec() -> (r: Vec<u8>)
    ensures
        r@ == span_close(),
{
    let v: Vec<u8> = vec![
        60u8, 47u8, 115u8, 112u8, 97u8, 110u8, 62u8,
    ];
    proof {
        assert(v@ =~= span_close());
    }
    v
}

/// Bytes of the tag that closes a styled private block, with its line break (`</blockquote>\n`).
pub open spec fn block_close() -> Seq<u8> {
    seq![
        60u8, 47u8, 98u8, 108u8, 111u8, 99u8, 107u8, 113u8, 117u8, 111u8, 116u8, 101u8, 62u8,
        10u8,
    ]
}

/// Builds `block_close()` as a vector.
pub fn block_close_vec() -> (r: Vec<u8>)
    ensures
        r@ == block_close(),
{
    let v: Vec<u8> = vec![
        60u8, 47u8, 98u8, 108u8, 111u8, 99u8, 107u8, 113u8, 117u8, 111u8, 116u8, 101u8, 62u8,
        10u8,
    ];
    proof {
        assert(v@ =~= block_close());
    }
    v
}

/// Bytes of the default notice label (`CONFIDENTIAL`).
pub open spec fn default_notice() -> Seq<u8> {
    seq![
        67u8, 79u8, 78u8, 70u8, 73u8, 68u8, 69u8, 78u8, 84u8, 73u8, 65u8, 76u8,
    ]
}

/// Builds `default_notice()` as a vector.
pub fn default_notice_vec() -> (r: Vec<u8>)
    ensures
        r@ == default_notice(),
{
    let v: Vec<u8> = vec![
        67u8, 79u8, 78u8, 70u8, 73u8, 68u8, 69u8, 78u8, 84u8, 73u8, 65u8, 76u8,
    ];
    proof {
        assert(v@ =~= default_notice());
    }
    v
}

/// Bytes of the default filename prefix that marks a private chapter (`_`).
pub open spec fn default_prefix() -> Seq<u8> {
    seq![
        95u8,
    ]
}

/// Builds `default_prefix()` as a vector.
pub fn default_prefix_vec() -> (r: Vec<u8>)
    ensures
        r@ == default_prefix(),
{
    let v: Vec<u8> = vec![
        95u8,
    ];
    proof {
        assert(v@ =~= default_prefix());
    }
    v
}

/// Bytes of the one output-target name the transform declares itself
/// inapplicable to (`not-supported`).
pub open spec fn denied_renderer() -> Seq<u8> {
    seq![
        110u8, 111u8, 116u8, 45u8, 115u8, 117u8, 112u8, 112u8, 111u8, 114u8, 116u8, 101u8,
        100u8,
    ]
}

/// Builds `denied_renderer()` as a vector.
pub fn denied_renderer_vec() -> (r: Vec<u8>)
    ensures
        r@ == denied_renderer(),
{
    let v: Vec<u8> = vec![
        110u8, 111u8, 116u8, 45u8, 115u8, 117u8, 112u8, 112u8, 111u8, 114u8, 116u8, 101u8,
        100u8,
    ];
    proof {
        assert(v@ =~= denied_renderer());
    }
    v
}

} // verus!
