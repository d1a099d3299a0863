//! The fixed text of the emitted sources, in the order in which it is written out.
//!
//! Each constant is one uninterrupted stretch of output; what stands between two
//! of them is computed from the schema.

use vstd::prelude::*;

verus! {

/// The headers every trace source needs, whatever the circuit.
pub const INCLUDES_BOILERPLATE: &'static str = "
#include \"barretenberg/ecc/curves/bn254/fr.hpp\"
#include <cstdint>
#include <filesystem>
#include <fstream>
#include <iostream>
#include <string>
#include <sys/types.h>
#include <vector>
#include \"barretenberg/proof_system/arithmetization/arithmetization.hpp\"
";

/// Separates the relation path from the circuit name.
pub const PATH_SEPARATOR: &'static str = "/";

/// Opens the include of the circuit's relation header; the relation path follows.
pub const INCLUDE_RELATION: &'static str = "
#include \"barretenberg/";

/// Closes the relation include and opens that of the arithmetization; the circuit name follows.
pub const INCLUDE_RELATION_END: &'static str = ".hpp\"
#include \"barretenberg/proof_system/arithmetization/generated/";

/// Closes the arithmetization include.
pub const INCLUDE_ARITH_END: &'static str = "_arith.hpp\"
";

/// Head of the builder header up to the include of the trace source; the circuit name follows.
pub const HEADER_INCLUDES: &'static str = "
    // AUTOGENERATED FILE
    #pragma once
    
    #include \"barretenberg/ecc/curves/bn254/fr.hpp\"
    #include \"barretenberg/proof_system/arithmetization/arithmetization.hpp\"
    #include \"barretenberg/proof_system/circuit_builder/circuit_builder_base.hpp\"
    
    #include \"./";

/// Closes the trace source include and opens that of the flavor; the circuit name follows.
pub const HEADER_INCLUDE_FLAVOR: &'static str = "_trace.cpp\"
    #include \"barretenberg/honk/flavor/generated/";

/// Closes the flavor include and opens that of the arithmetization; the circuit name follows.
pub const HEADER_INCLUDE_ARITH: &'static str = "_flavor.hpp\"
    #include \"barretenberg/proof_system/arithmetization/generated/";

/// Closes the arithmetization include and opens that of the relation; the circuit name follows.
pub const HEADER_INCLUDE_RELATION: &'static str = "_arith.hpp\"
    #include \"barretenberg/proof_system/relations/generated/";

/// Closes the relation include.
pub const HEADER_INCLUDES_END: &'static str = ".hpp\"
";

/// The name fragment by which the end-of-trace marker column is recognised.
pub const MARKER: &'static str = "ISLAST";

/// Start of a shift assignment; the column name follows.
pub const SHIFT_TARGET: &'static str = "row.";

/// Middle of a shift assignment, between the two occurrences of the column name.
pub const SHIFT_SOURCE: &'static str = "_shift = rows[(i) % rows.size()].";

/// Ends a statement.
pub const STATEMENT_END: &'static str = ";";

/// Opens the loop that fills the shifts; the assignments follow.
pub const SHIFT_LOOP_OPEN: &'static str = "
    for (size_t i = 1; i < rows.size(); ++i) {
        Row& row = rows[i-1];
        ";

/// Closes the loop that fills the shifts.
pub const SHIFT_LOOP_CLOSE: &'static str = "
        
    }
    ";

/// Start of an assignment to the empty row; the column name follows.
pub const EMPTY_ROW_FIELD: &'static str = "empty_row.";

/// Sets a column of the empty row to zero.
pub const EMPTY_ROW_ZERO: &'static str = " = fr(0);";

/// Declares the empty row and starts the assignment to its marker column, whose name follows.
pub const EMPTY_ROW_OPEN: &'static str = "
    auto empty_row = Row{};
    empty_row.";

/// Sets the marker column to one; the other assignments follow.
pub const EMPTY_ROW_ONE: &'static str = " = fr(1);
    ";

/// Appends the empty row to the trace.
pub const EMPTY_ROW_PUSH: &'static str = "
    rows.push_back(empty_row);

        
    ";

/// Start of the alias for the row type; the circuit name follows.
pub const ROW_ALIAS: &'static str = "using Row = ";

/// End of the alias for the row type.
pub const ROW_ALIAS_END: &'static str = "_vm::Row<barretenberg::fr>;";

/// Start of an assignment to the row being read; the column name follows.
pub const CURRENT_ROW_FIELD: &'static str = "current_row.";

/// Reads the next element of the constants file.
pub const READ_CONSTANT: &'static str = " = read_field(constant_file);";

/// Start of an assignment of a witness column to the row being read, on a line of its own; the column name follows.
pub const CURRENT_ROW_FIELD_INDENTED: &'static str = "
        current_row.";

/// Reads the next element of the witness file.
pub const READ_COMMITTED: &'static str = " = read_field(commited_file);";

/// First line of the trace source; the includes follow.
pub const SOURCE_HEAD: &'static str = "
// AUTOGENERATED FILE
";

/// Opens the namespace of the trace source; the row alias follows.
pub const SOURCE_NAMESPACE: &'static str = "

using namespace barretenberg;

namespace proof_system {

";

/// The field reader and the head of the file reader, up to the body of the read loop; the reads of the fixed columns follow.
pub const SOURCE_READER: &'static str = "
inline fr read_field(std::ifstream& file)
{
    uint8_t buffer[32];
    file.read(reinterpret_cast<char*>(buffer), 32);

    // swap it to big endian ???? TODO: create utility
    for (int n = 0, m = 31; n < m; ++n, --m) {
        std::swap(buffer[n], buffer[m]);
    }

    return fr::serialize_from_buffer(buffer);
}
    
inline std::vector<Row> read_both_file_into_cols(
    std::string const& commited_filename,
    std::string const& constants_filename
) {
    std::vector<Row> rows;

    // open both files
    std::ifstream commited_file(commited_filename, std::ios::binary);
    if (!commited_file) {
        std::cout << \"Error opening commited file\" << std::endl;
        return {};
    }

    std::ifstream constant_file(constants_filename, std::ios::binary);
    if (!constant_file) {
        std::cout << \"Error opening constant file\" << std::endl;
        return {};
    }

    // We are assuming that the two files are the same length
    while (commited_file) {
        Row current_row = {};

        ";

/// Separates the reads of the fixed columns from those of the witness columns.
pub const SOURCE_BETWEEN_READS: &'static str = "
        ";

/// Ends the read loop and drops the trailing row; the shift loop follows.
pub const SOURCE_AFTER_READS: &'static str = "

        rows.push_back(current_row);
    }

    // remove the last row - TODO: BUG!
    rows.pop_back();

    // Build out shifts from collected rows
    ";

/// Returns the rows and closes the namespace.
pub const SOURCE_TAIL: &'static str = "


    return rows;
}

}
    ";

/// Start of a statement on a polynomial; the column name follows.
pub const POLY_TARGET: &'static str = "polys.";

/// Middle of the copy of a row value into its polynomial, between the two occurrences of the column name.
pub const POLY_FROM_ROW: &'static str = "[i] = rows[i].";

/// Middle of the assignment of a shifted polynomial, between the two occurrences of the column name.
pub const POLY_SHIFT_FROM: &'static str = "_shift = Polynomial(polys.";

/// End of the assignment of a shifted polynomial.
pub const POLY_SHIFT_END: &'static str = ".shifted());";

/// Opens the namespace and the class declaration; the circuit name follows.
pub const HEADER_CLASS: &'static str = "

using namespace barretenberg;

namespace proof_system {

class ";

/// Ends the class name and starts the alias for the field; the circuit name follows.
pub const HEADER_FF: &'static str = "TraceBuilder {
    public:
        using FF = arithmetization::";

/// Ends the alias for the field and starts that for the row; the circuit name follows.
pub const HEADER_ROW: &'static str = "Arithmetization::FF;
        using Row = ";

/// Ends the alias for the row and starts that for the polynomial; the circuit name follows.
pub const HEADER_POLYNOMIAL: &'static str = "_vm::Row<FF>;

        // TODO: tempalte
        using Polynomial = honk::flavor::";

/// Ends the alias for the polynomial and starts that for the polynomial set; the circuit name follows.
pub const HEADER_ALL_POLYNOMIALS: &'static str = "Flavor::Polynomial;
        using AllPolynomials = honk::flavor::";

/// Ends the aliases and starts the column count, whose digits follow.
pub const HEADER_NUM_COLUMNS: &'static str = "Flavor::AllPolynomials;

        static constexpr size_t num_fixed_columns = ";

/// Ends the column count and starts the polynomial count, whose digits follow.
pub const HEADER_NUM_POLYS: &'static str = ";
        static constexpr size_t num_polys = ";

/// The row store, `build_circuit` and the head of `compute_polynomials`, up to the body of the copy loop.
pub const HEADER_COMPUTE_POLYNOMIALS: &'static str = ";
        std::vector<Row> rows;


        [[maybe_unused]] void build_circuit() {
            rows = read_both_file_into_cols(\"../commits.bin\", \"../constants.bin\");
        }


        AllPolynomials compute_polynomials() {
            const auto num_rows = get_circuit_subgroup_size();
            AllPolynomials polys;

            // Allocate mem for each column
            for (size_t i = 0; i < num_fixed_columns; ++i) {
                polys[i] = Polynomial(num_rows);
            }

            for (size_t i = 0; i < rows.size(); i++) {
                ";

/// Ends the copy loop; the shifted polynomials follow.
pub const HEADER_AFTER_COPIES: &'static str = "
            }

            ";

/// Ends `compute_polynomials` and holds `check_circuit` up to the relation type, which starts with the circuit name.
pub const HEADER_CHECK_CIRCUIT: &'static str = "

            return polys;
        }

        [[maybe_unused]] bool check_circuit() {
            // Get the rows from file
            build_circuit();

            auto polys = compute_polynomials();
            const size_t num_rows = polys[0].size();

            const auto evaluate_relation = [&]<typename Relation>(const std::string& relation_name) {
                typename Relation::ArrayOfValuesOverSubrelations result;
                for (auto& r : result) {
                    r = 0;
                }
                constexpr size_t NUM_SUBRELATIONS = result.size();

                for (size_t i = 0; i < num_rows; ++i) {
                    Relation::accumulate(result, polys.get_row(i), {}, 1);

                    bool x = true;
                    for (size_t j = 0; j < NUM_SUBRELATIONS; ++j) {
                        if (result[j] != 0) {
                            info(\"Relation \", relation_name, \", subrelation index \", j, \" failed at row \", i);
                            throw false;
                            x = false;
                        }
                    }
                    if (!x) {
                        return false;
                    }
                }
                return true;
            };

            return evaluate_relation.template operator()<";

/// Separates the namespace of the relation from its name.
pub const HEADER_RELATION_TYPE: &'static str = "_vm::";

/// Ends the relation type and starts the label under which failures are reported.
pub const HEADER_RELATION_LABEL: &'static str = "<FF>>(\"";

/// Ends `check_circuit`; holds the two size getters and closes the class.
pub const HEADER_TAIL: &'static str = "\");
        }

        [[nodiscard]] size_t get_num_gates() const { return rows.size(); }

        [[nodiscard]] size_t get_circuit_subgroup_size() const
        {
            const size_t num_rows = get_num_gates();
            const auto num_rows_log2 = static_cast<size_t>(numeric::get_msb64(num_rows));
            size_t num_rows_pow2 = 1UL << (num_rows_log2 + (1UL << num_rows_log2 == num_rows ? 0 : 1));
            return num_rows_pow2;
        }


};
}
        ";

} // verus!
