use vstd::prelude::*;
use crate::era::{covers, resolve, table_wf, Era, Jidai};

verus! {

/// The era table, oldest first. It holds a selection of eras, each running
/// until the next one listed begins.
pub open spec fn spec_eras() -> Seq<Era> {
    seq![
        Era {
            kanji: Some("大化"),
            romaji: Some("taika"),
            jidai: Jidai::Asuka,
            started_at: -41795654400i64,
            ended_at: Some(-23168073600i64),
        },
        Era {
            kanji: Some("嘉禎"),
            romaji: Some("katei"),
            jidai: Jidai::Kamakura,
            started_at: -23168073600i64,
            ended_at: Some(-23071478400i64),
        },
        Era {
            kanji: Some("暦仁"),
            romaji: Some("ryakunin"),
            jidai: Jidai::Kamakura,
            started_at: -23071478400i64,
            ended_at: Some(-3193257600i64),
        },
        Era {
            kanji: Some("明治"),
            romaji: Some("meiji"),
            jidai: Jidai::Modern,
            started_at: -3193257600i64,
            ended_at: Some(-1812153600i64),
        },
        Era {
            kanji: Some("大正"),
            romaji: Some("taishou"),
            jidai: Jidai::Modern,
            started_at: -1812153600i64,
            ended_at: Some(-1357603200i64),
        },
        Era {
            kanji: Some("昭和"),
            romaji: Some("shouwa"),
            jidai: Jidai::Modern,
            started_at: -1357603200i64,
            ended_at: Some(600220800i64),
        },
        Era {
            kanji: Some("平成"),
            romaji: Some("heisei"),
            jidai: Jidai::Modern,
            started_at: 600220800i64,
            ended_at: Some(1556668800i64),
        },
        Era {
            kanji: Some("令和"),
            romaji: Some("reiwa"),
            jidai: Jidai::Modern,
            started_at: 1556668800i64,
            ended_at: None,
        }
    ]
}

/// The era table as a vector.
pub fn sorted_eras() -> (r: Vec<Era>)
    ensures
        r@ == spec_eras(),
{
    let mut v: Vec<Era> = Vec::new();
    v.push(Era {
        kanji: Some("大化"),
        romaji: Some("taika"),
        jidai: Jidai::Asuka,
        started_at: -41795654400i64,
        ended_at: Some(-23168073600i64),
    });
    v.push(Era {
        kanji: Some("嘉禎"),
        romaji: Some("katei"),
        jidai: Jidai::Kamakura,
        started_at: -23168073600i64,
        ended_at: Some(-23071478400i64),
    });
    v.push(Era {
        kanji: Some("暦仁"),
        romaji: Some("ryakunin"),
        jidai: Jidai::Kamakura,
        started_at: -23071478400i64,
        ended_at: Some(-3193257600i64),
    });
    v.push(Era {
        kanji: Some("明治"),
        romaji: Some("meiji"),
        jidai: Jidai::Modern,
        started_at: -3193257600i64,
        ended_at: Some(-1812153600i64),
    });
    v.push(Era {
        kanji: Some("大正"),
        romaji: Some("taishou"),
        jidai: Jidai::Modern,
        started_at: -1812153600i64,
        ended_at: Some(-1357603200i64),
    });
    v.push(Era {
        kanji: Some("昭和"),
        romaji: Some("shouwa"),
        jidai: Jidai::Modern,
        started_at: -1357603200i64,
        ended_at: Some(600220800i64),
    });
    v.push(Era {
        kanji: Some("平成"),
        romaji: Some("heisei"),
        jidai: Jidai::Modern,
        started_at: 600220800i64,
        ended_at: Some(1556668800i64),
    });
    v.push(Era {
        kanji: Some("令和"),
        romaji: Some("reiwa"),
        jidai: Jidai::Modern,
        started_at: 1556668800i64,
        ended_at: None,
    });
    assert(v@ =~= spec_eras());
    v
}

/// The era table is well formed.
pub proof fn lemma_table_wf()
    ensures
        table_wf(spec_eras()),
{
}

/// One second before the first era there is no era; at its start and one
/// second after it is the era found.
pub proof fn lemma_first_era_boundary()
    ensures
        resolve(spec_eras()[0].started_at - 1) is None,
        resolve(spec_eras()[0].started_at as int) == Some(0int),
        resolve(spec_eras()[0].started_at + 1) == Some(0int),
{
    assert(covers(spec_eras()[0], spec_eras()[0].started_at as int));
    assert(covers(spec_eras()[0], spec_eras()[0].started_at + 1));
}

} // verus!
